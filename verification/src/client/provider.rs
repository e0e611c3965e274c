//! How the client reaches a URL, what it reports of a TLS connection, and
//! when a pooled connection has expired.
use vstd::prelude::*;

use crate::client::error::EpoxyError;
use crate::text::chars_of;

verus! {

/// A request for a stream to a host and port.
#[derive(Clone, Debug)]
pub struct ProviderServiceReq {
    pub host: String,
    pub port: u16,
}

/// How a connection is secured.
#[derive(Clone, Copy, Debug, PartialEq, Eq, Structural)]
pub enum Transport {
    /// No TLS (`http`, `ws`).
    Plain,
    /// TLS offering HTTP/2 and HTTP/1.1 by ALPN (`https`).
    TlsHttp,
    /// TLS without ALPN (`wss`).
    Tls,
}

/// Where and how to connect for a URL.
#[derive(Clone, Debug)]
pub struct ConnectTarget {
    pub host: String,
    pub port: u16,
    pub transport: Transport,
}

pub open spec fn https() -> Seq<char> {
    seq!['h', 't', 't', 'p', 's']
}

pub open spec fn http() -> Seq<char> {
    seq!['h', 't', 't', 'p']
}

pub open spec fn wss() -> Seq<char> {
    seq!['w', 's', 's']
}

pub open spec fn ws() -> Seq<char> {
    seq!['w', 's']
}

/// The port a scheme defaults to.
pub open spec fn default_port(scheme: Seq<char>) -> Option<u16> {
    if scheme == https() || scheme == wss() {
        Some(443)
    } else if scheme == http() || scheme == ws() {
        Some(80)
    } else {
        None
    }
}

/// How to connect for a URL's scheme, host and port, checked in this
/// order: a scheme is needed, a host is needed, the port is the URL's or
/// the scheme's default, and the scheme must be one of `http`, `ws`,
/// `https` and `wss`.
pub enum TargetSpec {
    Reach { host: Seq<char>, port: u16, transport: Transport },
    NoScheme,
    NoHost,
    NoPort,
    BadScheme(Seq<char>),
}

pub open spec fn spec_connect_target(
    scheme: Option<Seq<char>>,
    host: Option<Seq<char>>,
    port: Option<u16>,
) -> TargetSpec {
    match scheme {
        None => TargetSpec::NoScheme,
        Some(s) => match host {
            None => TargetSpec::NoHost,
            Some(h) => {
                let p = match port {
                    Some(p) => Some(p),
                    None => default_port(s),
                };
                match p {
                    None => TargetSpec::NoPort,
                    Some(p) => if s == http() || s == ws() {
                        TargetSpec::Reach { host: h, port: p, transport: Transport::Plain }
                    } else if s == https() {
                        TargetSpec::Reach { host: h, port: p, transport: Transport::TlsHttp }
                    } else if s == wss() {
                        TargetSpec::Reach { host: h, port: p, transport: Transport::Tls }
                    } else {
                        TargetSpec::BadScheme(s)
                    },
                }
            },
        },
    }
}

pub open spec fn opt_view(o: Option<String>) -> Option<Seq<char>> {
    match o {
        Some(s) => Some(s@),
        None => None,
    }
}

/// The port a URL's own port, or else the given default.
pub open spec fn port_or(port: Option<u16>, default: u16) -> u16 {
    match port {
        Some(p) => p,
        None => default,
    }
}

/// Where a URL with a scheme and a host is reached: `http` and `ws` in the
/// clear, on port 80 unless the URL names one; `https` (with HTTP ALPN) and
/// `wss` over TLS, on port 443 unless the URL names one; any other scheme,
/// or a URL without scheme or host, is refused.
pub open spec fn target_ports(
    scheme: Option<Seq<char>>,
    host: Option<Seq<char>>,
    port: Option<u16>,
    r: Result<ConnectTarget, EpoxyError>,
) -> bool {
    match (scheme, host) {
        (Some(s), Some(h)) => {
            &&& (s == seq!['h', 't', 't', 'p'] || s == seq!['w', 's']) ==> (r matches Ok(x)
                && x.host@ == h && x.port == port_or(port, 80) && x.transport == Transport::Plain)
            &&& s == seq!['h', 't', 't', 'p', 's'] ==> (r matches Ok(x) && x.host@ == h && x.port
                == port_or(port, 443) && x.transport == Transport::TlsHttp)
            &&& s == seq!['w', 's', 's'] ==> (r matches Ok(x) && x.host@ == h && x.port
                == port_or(port, 443) && x.transport == Transport::Tls)
            &&& !(s == seq!['h', 't', 't', 'p'] || s == seq!['w', 's'] || s == seq![
                'h',
                't',
                't',
                'p',
                's',
            ] || s == seq!['w', 's', 's']) ==> r is Err
        },
        _ => r is Err,
    }
}

/// A URL is reached on its own port when it names one, else on 80 for
/// `http` and `ws` (in the clear) and on 443 for `https` and `wss` (over
/// TLS); other schemes, and URLs without scheme or host, are refused.
pub proof fn lemma_target_ports(scheme: Option<Seq<char>>, host: Option<Seq<char>>, port: Option<u16>)
    ensures
        match (scheme, host) {
            (Some(s), Some(h)) => {
                &&& (s == seq!['h', 't', 't', 'p'] || s == seq!['w', 's']) ==> spec_connect_target(
                    scheme,
                    host,
                    port,
                ) == (TargetSpec::Reach { host: h, port: port_or(port, 80), transport: Transport::Plain })
                &&& s == seq!['h', 't', 't', 'p', 's'] ==> spec_connect_target(scheme, host, port)
                    == (TargetSpec::Reach {
                    host: h,
                    port: port_or(port, 443),
                    transport: Transport::TlsHttp,
                })
                &&& s == seq!['w', 's', 's'] ==> spec_connect_target(scheme, host, port)
                    == (TargetSpec::Reach { host: h, port: port_or(port, 443), transport: Transport::Tls })
                &&& !(s == seq!['h', 't', 't', 'p'] || s == seq!['w', 's'] || s == seq![
                    'h',
                    't',
                    't',
                    'p',
                    's',
                ] || s == seq!['w', 's', 's']) ==> !(spec_connect_target(scheme, host, port) is Reach)
            },
            _ => !(spec_connect_target(scheme, host, port) is Reach),
        },
{
    let a = seq!['h', 't', 't', 'p'];
    let b = seq!['w', 's'];
    let c = seq!['h', 't', 't', 'p', 's'];
    let d = seq!['w', 's', 's'];
    assert(a.len() == 4 && b.len() == 2 && c.len() == 5 && d.len() == 3);
    assert(http() == a && ws() == b && https() == c && wss() == d);
    if let (Some(s), Some(h)) = (scheme, host) {
        if s == a || s == b {
            assert(default_port(s) == Some(80u16));
        } else if s == c || s == d {
            assert(default_port(s) == Some(443u16));
        }
    }
}

fn is_scheme(s: &Vec<char>, name: &[char]) -> (r: bool)
    ensures
        r == (s@ == name@),
{
    if s.len() != name.len() {
        return false;
    }
    let mut i: usize = 0;
    while i < s.len()
        invariant
            0 <= i <= s@.len(),
            s@.len() == name@.len(),
            forall|k: int| 0 <= k < i ==> s@[k] == name@[k],
        decreases s@.len() - i,
    {
        if s[i] != name[i] {
            return false;
        }
        i += 1;
    }
    assert(s@ =~= name@);
    true
}

/// How to connect for a URL (see `spec_connect_target`).
pub fn connect_target(scheme: Option<String>, host: Option<String>, port: Option<u16>) -> (r: Result<
    ConnectTarget,
    EpoxyError,
>)
    ensures
        match spec_connect_target(opt_view(scheme), opt_view(host), port) {
            TargetSpec::Reach { host: h, port: p, transport: t } => r matches Ok(x) && x.host@ == h
                && x.port == p && x.transport == t,
            TargetSpec::NoScheme => r matches Err(EpoxyError::InvalidUrlScheme(None)),
            TargetSpec::NoHost => r matches Err(EpoxyError::NoUrlHost),
            TargetSpec::NoPort => r matches Err(EpoxyError::NoUrlPort),
            TargetSpec::BadScheme(s) => r matches Err(EpoxyError::InvalidUrlScheme(Some(x)))
                && x@ == s,
        },
        target_ports(opt_view(scheme), opt_view(host), port, r),
{
    proof {
        lemma_target_ports(opt_view(scheme), opt_view(host), port);
    }
    let scheme = match scheme {
        Some(s) => s,
        None => {
            return Err(EpoxyError::InvalidUrlScheme(None));
        },
    };
    let host = match host {
        Some(h) => h,
        None => {
            return Err(EpoxyError::NoUrlHost);
        },
    };
    let sc = chars_of(scheme.as_str());
    let https_n = ['h', 't', 't', 'p', 's'];
    let http_n = ['h', 't', 't', 'p'];
    let wss_n = ['w', 's', 's'];
    let ws_n = ['w', 's'];
    assert(https_n@ =~= https());
    assert(http_n@ =~= http());
    assert(wss_n@ =~= wss());
    assert(ws_n@ =~= ws());
    let is_https = is_scheme(&sc, &https_n);
    let is_http = is_scheme(&sc, &http_n);
    let is_wss = is_scheme(&sc, &wss_n);
    let is_ws = is_scheme(&sc, &ws_n);
    let port = match port {
        Some(p) => p,
        None => if is_https || is_wss {
            443
        } else if is_http || is_ws {
            80
        } else {
            return Err(EpoxyError::NoUrlPort);
        },
    };
    let transport = if is_http || is_ws {
        Transport::Plain
    } else if is_https {
        Transport::TlsHttp
    } else if is_wss {
        Transport::Tls
    } else {
        return Err(EpoxyError::InvalidUrlScheme(Some(scheme)));
    };
    Ok(ConnectTarget { host, port, transport })
}

/// Whether TLS negotiated HTTP/2: the ALPN protocol is `h2`.
pub fn h2_negotiated(alpn: &Option<Vec<u8>>) -> (r: bool)
    ensures
        r == (alpn matches Some(p) && p@ == seq![104u8, 50u8]),
{
    match alpn {
        Some(p) => {
            let r = p.len() == 2 && p[0] == 104 && p[1] == 50;
            assert(r == (p@ =~= seq![104u8, 50u8]));
            r
        },
        None => false,
    }
}

// ---------------------------------------------------------------------------
// TLS connection metadata
// ---------------------------------------------------------------------------
/// Metadata about a negotiated TLS connection; each item can be taken once.
pub struct TlsStreamInfo {
    pub negotiated_protocol: Option<String>,
    pub protocol_version: Option<String>,
    pub cipher_suite: Option<String>,
    pub peer_certificates: Option<Vec<Vec<u8>>>,
}

impl TlsStreamInfo {
    pub fn new(
        negotiated_protocol: Option<String>,
        protocol_version: Option<String>,
        cipher_suite: Option<String>,
        peer_certificates: Option<Vec<Vec<u8>>>,
    ) -> (r: Self)
        ensures
            r.negotiated_protocol == negotiated_protocol,
            r.protocol_version == protocol_version,
            r.cipher_suite == cipher_suite,
            r.peer_certificates == peer_certificates,
    {
        TlsStreamInfo { negotiated_protocol, protocol_version, cipher_suite, peer_certificates }
    }

    /// The ALPN protocol the server selected, if any; taken.
    pub fn negotiated_protocol(&mut self) -> (r: Option<String>)
        ensures
            r == old(self).negotiated_protocol,
            *final(self) == (TlsStreamInfo { negotiated_protocol: None, ..*old(self) }),
    {
        self.negotiated_protocol.take()
    }

    /// The negotiated TLS version; taken.
    pub fn protocol_version(&mut self) -> (r: Option<String>)
        ensures
            r == old(self).protocol_version,
            *final(self) == (TlsStreamInfo { protocol_version: None, ..*old(self) }),
    {
        self.protocol_version.take()
    }

    /// The negotiated cipher suite; taken.
    pub fn cipher_suite(&mut self) -> (r: Option<String>)
        ensures
            r == old(self).cipher_suite,
            *final(self) == (TlsStreamInfo { cipher_suite: None, ..*old(self) }),
    {
        self.cipher_suite.take()
    }

    /// The server's certificate chain, DER, end-entity first; taken.
    pub fn peer_certificates(&mut self) -> (r: Option<Vec<Vec<u8>>>)
        ensures
            r == old(self).peer_certificates,
            *final(self) == (TlsStreamInfo { peer_certificates: None, ..*old(self) }),
    {
        self.peer_certificates.take()
    }
}

// ---------------------------------------------------------------------------
// Expiring pooled connections
// ---------------------------------------------------------------------------
/// When a pooled connection expires, in nanoseconds: after being idle for
/// `idle_timeout`, or `max_lifetime` after it was made.
#[derive(Clone, Copy, Debug)]
pub struct ExpireConfig {
    pub idle_timeout: u128,
    pub max_lifetime: u128,
}

/// When a connection was made and last used, in nanoseconds of a clock.
#[derive(Clone, Copy, Debug)]
pub struct ExpireState {
    pub created_at: u128,
    pub last_used_at: u128,
}

/// Time elapsed from `earlier` to `now`, zero when `now` is earlier.
pub open spec fn elapsed(now: u128, earlier: u128) -> int {
    if now >= earlier {
        now - earlier
    } else {
        0
    }
}

impl ExpireState {
    /// A connection made at `now`.
    pub fn new(now: u128) -> (r: Self)
        ensures
            r.created_at == now,
            r.last_used_at == now,
    {
        ExpireState { created_at: now, last_used_at: now }
    }

    pub open spec fn spec_is_expired(self, config: ExpireConfig, now: u128) -> bool {
        elapsed(now, self.last_used_at) >= config.idle_timeout || elapsed(now, self.created_at)
            >= config.max_lifetime
    }

    /// Whether the connection has expired at `now`.
    pub fn is_expired(&self, config: &ExpireConfig, now: u128) -> (r: bool)
        ensures
            r == self.spec_is_expired(*config, now),
    {
        now.saturating_sub(self.last_used_at) >= config.idle_timeout || now.saturating_sub(
            self.created_at,
        ) >= config.max_lifetime
    }

    /// The connection was used at `now`.
    pub fn touch(&mut self, now: u128)
        ensures
            final(self).created_at == old(self).created_at,
            final(self).last_used_at == now,
    {
        self.last_used_at = now;
    }
}

} // verus!
