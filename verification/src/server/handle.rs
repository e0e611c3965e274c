//! What the server tells a client whose stream it cannot serve, over Wisp
//! (a CLOSE reason) or over a websocket proxy (a close code and reason),
//! and how a websocket proxy reads its target from the path.
use vstd::prelude::*;

use crate::packet::{CloseReason, ConnectPacket, ConnectSpec, StreamType};
use crate::server::policy::ResolvedPacket;
use crate::text::{
    chars_of, first_segment, parse_u16, spec_decimal, spec_parse_uint, string_of_chars,
};

verus! {

/// What became of a stream once the server tried to open it.
#[derive(Clone, Copy, Debug, PartialEq, Eq, Structural)]
pub enum StreamKind {
    Tcp,
    Udp,
    Pty,
    Wispnet,
    NoResolvedAddrs,
    Blocked,
    Invalid,
}

// ---------------------------------------------------------------------------
// Over Wisp
// ---------------------------------------------------------------------------
/// The reason a Wisp stream is closed with when the policy refuses it, or
/// `None` when the server goes on to connect.
pub fn resolved_close_reason(resolved: &ResolvedPacket) -> (r: Option<CloseReason>)
    ensures
        match resolved {
            ResolvedPacket::Valid(_) | ResolvedPacket::ValidWispnet(..) => r is None,
            ResolvedPacket::NoResolvedAddrs => r == Some(CloseReason::ServerStreamUnreachable),
            ResolvedPacket::Blocked => r == Some(CloseReason::ServerStreamBlockedAddress),
            ResolvedPacket::Invalid => r == Some(CloseReason::ServerStreamInvalidInfo),
        },
{
    match resolved {
        ResolvedPacket::Valid(_) | ResolvedPacket::ValidWispnet(..) => None,
        ResolvedPacket::NoResolvedAddrs => Some(CloseReason::ServerStreamUnreachable),
        ResolvedPacket::Blocked => Some(CloseReason::ServerStreamBlockedAddress),
        ResolvedPacket::Invalid => Some(CloseReason::ServerStreamInvalidInfo),
    }
}

/// The reason a Wisp stream is closed with once forwarding ends: voluntary
/// when it ended cleanly, unexpected otherwise; a stream that could not be
/// opened gets the reason for that.
pub fn forward_close_reason(kind: StreamKind, forwarded_ok: bool) -> (r: CloseReason)
    ensures
        r == match kind {
            StreamKind::NoResolvedAddrs => CloseReason::ServerStreamUnreachable,
            StreamKind::Invalid => CloseReason::ServerStreamInvalidInfo,
            StreamKind::Blocked => CloseReason::ServerStreamBlockedAddress,
            _ => if forwarded_ok {
                CloseReason::Voluntary
            } else {
                CloseReason::Unexpected
            },
        },
{
    match kind {
        StreamKind::NoResolvedAddrs => CloseReason::ServerStreamUnreachable,
        StreamKind::Invalid => CloseReason::ServerStreamInvalidInfo,
        StreamKind::Blocked => CloseReason::ServerStreamBlockedAddress,
        _ => if forwarded_ok {
            CloseReason::Voluntary
        } else {
            CloseReason::Unexpected
        },
    }
}

// ---------------------------------------------------------------------------
// Over a websocket proxy
// ---------------------------------------------------------------------------
/// Websocket close code for a normal end.
pub const NORMAL_CLOSURE: u16 = 1000;

/// Websocket close code for a request the server refuses.
pub const POLICY_VIOLATION: u16 = 1008;

/// Websocket close code for a failure on the server's side.
pub const INTERNAL_SERVER_ERROR: u16 = 1011;

/// Why a websocket proxy closes.
#[derive(Clone, Copy, Debug, PartialEq, Eq, Structural)]
pub enum WsProxyClose {
    UdpBlocked,
    InvalidPort,
    ResolveFailed,
    ConnectFailed,
    NoResolvedAddrs,
    HostBlocked,
    InvalidCombination,
    HostInvalid,
    TwispUnsupported,
}

impl WsProxyClose {
    pub open spec fn spec_code(self) -> u16 {
        match self {
            WsProxyClose::ResolveFailed | WsProxyClose::ConnectFailed
            | WsProxyClose::NoResolvedAddrs => INTERNAL_SERVER_ERROR,
            _ => POLICY_VIOLATION,
        }
    }

    /// The websocket close code.
    pub fn code(&self) -> (r: u16)
        ensures
            r == self.spec_code(),
    {
        match self {
            WsProxyClose::ResolveFailed | WsProxyClose::ConnectFailed
            | WsProxyClose::NoResolvedAddrs => INTERNAL_SERVER_ERROR,
            _ => POLICY_VIOLATION,
        }
    }

    pub open spec fn spec_reason(self) -> Seq<char> {
        match self {
            WsProxyClose::UdpBlocked => "udp is blocked"@,
            WsProxyClose::InvalidPort => "invalid port"@,
            WsProxyClose::ResolveFailed => "failed to resolve host"@,
            WsProxyClose::ConnectFailed => "failed to connect to host"@,
            WsProxyClose::NoResolvedAddrs => "host did not resolve to any addrs"@,
            WsProxyClose::HostBlocked => "host is blocked"@,
            WsProxyClose::InvalidCombination => "invalid host/port/type combination"@,
            WsProxyClose::HostInvalid => "host is invalid"@,
            WsProxyClose::TwispUnsupported => "twisp is not supported"@,
        }
    }

    /// The close reason sent with the code.
    pub fn reason(&self) -> (r: &'static str)
        ensures
            r@ == self.spec_reason(),
    {
        match self {
            WsProxyClose::UdpBlocked => "udp is blocked",
            WsProxyClose::InvalidPort => "invalid port",
            WsProxyClose::ResolveFailed => "failed to resolve host",
            WsProxyClose::ConnectFailed => "failed to connect to host",
            WsProxyClose::NoResolvedAddrs => "host did not resolve to any addrs",
            WsProxyClose::HostBlocked => "host is blocked",
            WsProxyClose::InvalidCombination => "invalid host/port/type combination",
            WsProxyClose::HostInvalid => "host is invalid",
            WsProxyClose::TwispUnsupported => "twisp is not supported",
        }
    }
}

/// The part of a path after its last `/`.
pub open spec fn last_segment(s: Seq<char>, sep: char) -> Seq<char>
    decreases s.len(),
{
    if s.len() == 0 {
        s
    } else if s.last() == sep {
        seq![]
    } else {
        last_segment(s.drop_last(), sep).push(s.last())
    }
}

/// The part of a string after the first `sep`, if it has one.
pub open spec fn after_first(s: Seq<char>, sep: char) -> Option<Seq<char>>
    decreases s.len(),
{
    if s.len() == 0 {
        None
    } else if s[0] == sep {
        Some(s.drop_first())
    } else {
        after_first(s.drop_first(), sep)
    }
}

/// The stream a websocket proxy opens for a path ending in `host:port`
/// (what follows a second `:` is ignored).
pub open spec fn spec_wsproxy_target(path: Seq<char>, udp: bool, allow_udp: bool) -> Result<
    ConnectSpec,
    WsProxyClose,
> {
    let target = last_segment(path, '/');
    if udp && !allow_udp {
        Err(WsProxyClose::UdpBlocked)
    } else {
        match after_first(target, ':') {
            None => Err(WsProxyClose::InvalidPort),
            Some(rest) => match spec_parse_uint(first_segment(rest, ':'), u16::MAX as nat) {
                None => Err(WsProxyClose::InvalidPort),
                Some(port) => Ok(
                    ConnectSpec {
                        stream_type: if udp {
                            StreamType::Udp
                        } else {
                            StreamType::Tcp
                        },
                        host: first_segment(target, ':'),
                        port: port as u16,
                    },
                ),
            },
        }
    }
}

proof fn lemma_last_segment(s: Seq<char>, sep: char, i: int)
    requires
        0 <= i <= s.len(),
        forall|k: int| i <= k < s.len() ==> #[trigger] s[k] != sep,
        i == 0 || s[i - 1] == sep,
    ensures
        last_segment(s, sep) == s.skip(i),
    decreases s.len(),
{
    if s.len() > i {
        assert(s.drop_last().skip(i) =~= s.skip(i).drop_last());
        lemma_last_segment(s.drop_last(), sep, i);
        assert(s.skip(i) =~= s.drop_last().skip(i).push(s.last()));
    } else if s.len() > 0 {
        assert(s.skip(i) =~= Seq::<char>::empty());
    }
}

proof fn lemma_after_first(s: Seq<char>, sep: char, i: int)
    requires
        0 <= i <= s.len(),
        forall|k: int| 0 <= k < i ==> #[trigger] s[k] != sep,
    ensures
        after_first(s, sep) == (if i < s.len() && s[i] == sep {
            Some(s.skip(i + 1))
        } else {
            after_first(s.skip(i), sep)
        }),
    decreases i,
{
    if i > 0 {
        assert forall|k: int| 0 <= k < i - 1 implies #[trigger] s.drop_first()[k] != sep by {
            assert(s[k + 1] != sep);
        }
        lemma_after_first(s.drop_first(), sep, i - 1);
        assert(s.drop_first().skip(i - 1) =~= s.skip(i));
        if i < s.len() {
            assert(s.drop_first().skip(i) =~= s.skip(i + 1));
        }
    } else {
        assert(s.skip(0) =~= s);
        if s.len() > 0 && s[0] == sep {
            assert(s.drop_first() =~= s.skip(1));
        }
    }
}

/// A websocket proxy at `/host:port` opens a TCP stream to that host and
/// port, for any host holding neither `/` nor `:`.
pub proof fn lemma_wsproxy_target_roundtrip(host: Seq<char>, port: u16, allow_udp: bool)
    requires
        forall|i: int| 0 <= i < host.len() ==> #[trigger] host[i] != '/' && host[i] != ':',
    ensures
        spec_wsproxy_target(
            seq!['/'] + host + seq![':'] + spec_decimal(port as nat),
            false,
            allow_udp,
        ) == Ok::<ConnectSpec, WsProxyClose>(
            ConnectSpec { stream_type: StreamType::Tcp, host, port },
        ),
{
    let digits = spec_decimal(port as nat);
    let target = host + seq![':'] + digits;
    let path = seq!['/'] + target;
    crate::text::lemma_decimal_roundtrip(port as nat, u16::MAX as nat);
    crate::text::lemma_decimal_facts(port as nat);
    assert forall|k: int| 1 <= k < path.len() implies #[trigger] path[k] != '/' by {
        if k < 1 + host.len() {
            assert(path[k] == host[k - 1]);
        } else if k > 1 + host.len() {
            assert(path[k] == digits[k - 2 - host.len()]);
            assert(crate::text::is_digit(digits[k - 2 - host.len()]));
        }
    }
    lemma_last_segment(path, '/', 1);
    assert(path.skip(1) =~= target);
    assert forall|k: int| 0 <= k < host.len() implies #[trigger] target[k] != ':' by {
        assert(target[k] == host[k]);
    }
    lemma_after_first(target, ':', host.len() as int);
    assert(target.skip(host.len() as int + 1) =~= digits);
    crate::text::lemma_first_segment_at(target, ':', host.len() as int);
    assert(target.take(host.len() as int) =~= host);
    assert forall|k: int| 0 <= k < digits.len() implies #[trigger] digits[k] != ':' by {
        assert(crate::text::is_digit(digits[k]));
    }
    crate::text::lemma_first_segment_at(digits, ':', digits.len() as int);
    assert(digits.take(digits.len() as int) =~= digits);
    assert(path =~= seq!['/'] + host + seq![':'] + digits);
    assert(last_segment(path, '/') == target);
    assert(target[host.len() as int] == ':');
    assert(after_first(target, ':') == Some(digits));
    assert(first_segment(digits, ':') == digits);
    assert(spec_parse_uint(digits, u16::MAX as nat) == Some(port as nat));
    assert(first_segment(target, ':') == host);
}

/// The stream a websocket proxy at `path` opens (see `spec_wsproxy_target`).
pub fn wsproxy_target(path: &str, udp: bool, allow_udp: bool) -> (r: Result<
    ConnectPacket,
    WsProxyClose,
>)
    ensures
        match spec_wsproxy_target(path@, udp, allow_udp) {
            Ok(c) => r matches Ok(p) && p@ == c,
            Err(e) => r == Err::<ConnectPacket, WsProxyClose>(e),
        },
{
    if udp && !allow_udp {
        return Err(WsProxyClose::UdpBlocked);
    }
    let cs = chars_of(path);
    let n = cs.len();
    let mut start: usize = n;
    while start > 0 && cs[start - 1] != '/'
        invariant
            start <= n,
            n == cs@.len(),
            forall|k: int| start <= k < n ==> #[trigger] cs@[k] != '/',
        decreases start,
    {
        start -= 1;
    }
    proof {
        lemma_last_segment(cs@, '/', start as int);
    }
    let target = vstd::slice::slice_subrange(cs.as_slice(), start, n);
    assert(target@ =~= cs@.skip(start as int));
    let m = target.len();
    let mut colon: usize = 0;
    while colon < m && target[colon] != ':'
        invariant
            colon <= m,
            m == target@.len(),
            forall|k: int| 0 <= k < colon ==> #[trigger] target@[k] != ':',
        decreases m - colon,
    {
        colon += 1;
    }
    proof {
        lemma_after_first(target@, ':', colon as int);
        crate::text::lemma_first_segment_at(target@, ':', colon as int);
    }
    if colon == m {
        assert(after_first(target@.skip(m as int), ':') is None) by {
            assert(target@.skip(m as int).len() == 0);
        }
        return Err(WsProxyClose::InvalidPort);
    }
    let rest = vstd::slice::slice_subrange(target, colon + 1, m);
    assert(rest@ =~= target@.skip(colon + 1));
    let rest_s = string_of_chars(rest);
    let port_part = crate::text::split_first(rest_s.as_str(), ':');
    let port = match parse_u16(port_part.as_str()) {
        Some(p) => p,
        None => {
            return Err(WsProxyClose::InvalidPort);
        },
    };
    let host = string_of_chars(vstd::slice::slice_subrange(target, 0, colon));
    assert(host@ =~= target@.take(colon as int));
    Ok(
        ConnectPacket {
            stream_type: if udp {
                StreamType::Udp
            } else {
                StreamType::Tcp
            },
            host,
            port,
        },
    )
}

/// How a websocket proxy closes when the policy refuses its stream, or
/// `None` when the server goes on to connect.
pub fn wsproxy_resolved_close(resolved: &ResolvedPacket) -> (r: Option<WsProxyClose>)
    ensures
        match resolved {
            ResolvedPacket::Valid(_) | ResolvedPacket::ValidWispnet(..) => r is None,
            ResolvedPacket::NoResolvedAddrs => r == Some(WsProxyClose::NoResolvedAddrs),
            ResolvedPacket::Blocked => r == Some(WsProxyClose::HostBlocked),
            ResolvedPacket::Invalid => r == Some(WsProxyClose::InvalidCombination),
        },
{
    match resolved {
        ResolvedPacket::Valid(_) | ResolvedPacket::ValidWispnet(..) => None,
        ResolvedPacket::NoResolvedAddrs => Some(WsProxyClose::NoResolvedAddrs),
        ResolvedPacket::Blocked => Some(WsProxyClose::HostBlocked),
        ResolvedPacket::Invalid => Some(WsProxyClose::InvalidCombination),
    }
}

/// How a websocket proxy closes for a stream it cannot forward, or `None`
/// for the kinds it forwards.
pub fn wsproxy_stream_close(kind: StreamKind) -> (r: Option<WsProxyClose>)
    ensures
        r == match kind {
            StreamKind::Pty => Some(WsProxyClose::TwispUnsupported),
            StreamKind::NoResolvedAddrs => Some(WsProxyClose::NoResolvedAddrs),
            StreamKind::Blocked => Some(WsProxyClose::HostBlocked),
            StreamKind::Invalid => Some(WsProxyClose::HostInvalid),
            _ => None::<WsProxyClose>,
        },
{
    match kind {
        StreamKind::Pty => Some(WsProxyClose::TwispUnsupported),
        StreamKind::NoResolvedAddrs => Some(WsProxyClose::NoResolvedAddrs),
        StreamKind::Blocked => Some(WsProxyClose::HostBlocked),
        StreamKind::Invalid => Some(WsProxyClose::HostInvalid),
        _ => None,
    }
}

/// A websocket frame's kind, as the proxy tells them apart.
#[derive(Clone, Copy, Debug, PartialEq, Eq, Structural)]
pub enum FrameKind {
    Text,
    Binary,
    Close,
    Other,
}

/// What the proxy does with a frame from its client.
#[derive(Debug)]
pub enum WebSocketFrame {
    /// Forward the payload.
    Data(Vec<u8>),
    /// The client closed.
    Close,
    /// Nothing.
    Ignore,
}

/// Text and binary frames carry data; close frames end; the rest is ignored.
pub fn classify_frame(kind: FrameKind, payload: Vec<u8>) -> (r: WebSocketFrame)
    ensures
        match kind {
            FrameKind::Text | FrameKind::Binary => r matches WebSocketFrame::Data(d) && d@ == payload@,
            FrameKind::Close => r is Close,
            FrameKind::Other => r is Ignore,
        },
{
    match kind {
        FrameKind::Text | FrameKind::Binary => WebSocketFrame::Data(payload),
        FrameKind::Close => WebSocketFrame::Close,
        FrameKind::Other => WebSocketFrame::Ignore,
    }
}

} // verus!
