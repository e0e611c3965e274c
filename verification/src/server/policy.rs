//! The server's stream policy: which requested streams it opens, refuses or
//! hands to a Wisp client behind it (wispnet).
use base64::Engine;
use regex::RegexSet;

use vstd::prelude::*;
use vstd::utf8::*;

use crate::packet::{ConnectPacket, ConnectSpec, StreamType};
use crate::server::ip::IpAddress;
use crate::server::ip_literal::{host_ip, parse_ip_literal};
use crate::text::{chars_of, parse_u32, spec_parse_uint, string_from_utf8, string_of_chars};

verus! {

broadcast use vstd::utf8::group_utf8_lib;

// ---------------------------------------------------------------------------
// Host patterns
// ---------------------------------------------------------------------------
#[verifier::external_type_specification]
#[verifier::external_body]
pub struct ExRegexSet(regex::RegexSet);

#[verifier::external_type_specification]
#[verifier::external_body]
pub struct ExRegexError(regex::Error);

/// The patterns a `RegexSet` was built from (`RegexSet::patterns`).
pub uninterp spec fn regex_set_patterns(set: RegexSet) -> Seq<Seq<char>>;

/// Whether the regular expression `pattern` matches somewhere in `haystack`.
pub uninterp spec fn regex_matches(pattern: Seq<char>, haystack: Seq<char>) -> bool;

/// Whether `RegexSet::new` accepts these patterns.
pub uninterp spec fn regex_set_builds(patterns: Seq<Seq<char>>) -> bool;

pub open spec fn strings_view(v: Seq<String>) -> Seq<Seq<char>> {
    v.map_values(|s: String| s@)
}

/// `RegexSet::new`: it fails exactly on the pattern lists it cannot build,
/// an empty list always builds (`RegexSet::empty` unwraps that build), and a
/// set it builds keeps the patterns it was built from.
#[verifier::external_body]
fn regex_set_new(patterns: &Vec<String>) -> (r: Result<RegexSet, regex::Error>)
    ensures
        r is Ok <==> regex_set_builds(strings_view(patterns@)),
        patterns@.len() == 0 ==> r is Ok,
        r matches Ok(set) ==> regex_set_patterns(set) == strings_view(patterns@),
{
    RegexSet::new(patterns)
}

/// Some pattern of the list matches the haystack.
pub open spec fn set_matches(patterns: Seq<Seq<char>>, haystack: Seq<char>) -> bool {
    exists|i: int| 0 <= i < patterns.len() && #[trigger] regex_matches(patterns[i], haystack)
}

/// `RegexSet::is_match`: true exactly when one of the set's patterns matches.
#[verifier::external_body]
fn regex_set_is_match(set: &RegexSet, haystack: &str) -> (r: bool)
    ensures
        r == (exists|i: int| 0 <= i < regex_set_patterns(*set).len() && #[trigger] regex_matches(regex_set_patterns(*set)[i], haystack@)),
{
    set.is_match(haystack)
}

/// A list of host patterns.
pub struct HostFilter {
    pub set: RegexSet,
}

impl HostFilter {
    pub open spec fn patterns(&self) -> Seq<Seq<char>> {
        regex_set_patterns(self.set)
    }

    /// Compiles the patterns, or `None` when one of them is not a valid
    /// regular expression.
    pub fn new(patterns: &Vec<String>) -> (r: Option<HostFilter>)
        ensures
            r is Some <==> regex_set_builds(strings_view(patterns@)),
            patterns@.len() == 0 ==> r is Some,
            r matches Some(f) ==> f.patterns() == strings_view(patterns@),
    {
        match regex_set_new(patterns) {
            Ok(set) => Some(HostFilter { set }),
            Err(_) => None,
        }
    }

    /// Whether one of the patterns matches somewhere in the host.
    pub fn is_match(&self, host: &str) -> (r: bool)
        ensures
            r == set_matches(self.patterns(), host@),
    {
        regex_set_is_match(&self.set, host)
    }
}

// ---------------------------------------------------------------------------
// Base64 (wispnet server ids)
// ---------------------------------------------------------------------------
/// What standard (padded) base64 decoding gives for these bytes.
pub uninterp spec fn base64_decoded(input: Seq<u8>) -> Option<Seq<u8>>;

/// `base64::engine::general_purpose::STANDARD.decode`: its result is a
/// function of the input alone.
#[verifier::external_body]
fn base64_standard_decode(input: &[u8]) -> (r: Option<Vec<u8>>)
    ensures
        match base64_decoded(input@) {
            Some(b) => r matches Some(v) && v@ == b,
            None => r is None,
        },
{
    base64::engine::general_purpose::STANDARD.decode(input).ok()
}

// ---------------------------------------------------------------------------
// The policy
// ---------------------------------------------------------------------------
/// An inclusive range of ports.
#[derive(Clone, Copy, Debug)]
pub struct PortRange {
    pub start: u16,
    pub end: u16,
}

pub open spec fn in_ranges(ranges: Seq<PortRange>, port: u16) -> bool {
    exists|i: int| 0 <= i < ranges.len() && #[trigger] ranges[i].start <= port <= ranges[i].end
}

/// Whether some range holds the port.
pub fn ranges_contain(ranges: &Vec<PortRange>, port: u16) -> (r: bool)
    ensures
        r == in_ranges(ranges@, port),
{
    let mut i: usize = 0;
    while i < ranges.len()
        invariant
            0 <= i <= ranges@.len(),
            forall|k: int| 0 <= k < i ==> !(#[trigger] ranges@[k].start <= port <= ranges@[k].end),
        decreases ranges@.len() - i,
    {
        if ranges[i].start <= port && port <= ranges[i].end {
            return true;
        }
        i += 1;
    }
    false
}

/// What the server lets its clients connect to.
pub struct StreamPolicy {
    /// Wispnet is on: hosts ending in `.wisp` name a Wisp client of this server.
    pub has_wispnet: bool,
    pub allow_udp: bool,
    pub blocked_ports: Vec<PortRange>,
    pub allowed_ports: Vec<PortRange>,
    pub allow_direct_ip: bool,
    pub allow_loopback: bool,
    pub allow_multicast: bool,
    pub allow_global: bool,
    pub allow_non_global: bool,
    pub allowed_hosts: HostFilter,
    pub blocked_hosts: HostFilter,
    pub allowed_tcp_hosts: HostFilter,
    pub blocked_tcp_hosts: HostFilter,
    pub allowed_udp_hosts: HostFilter,
    pub blocked_udp_hosts: HostFilter,
    /// Keep IPv6 addresses when resolving a host name.
    pub resolve_ipv6: bool,
}

/// Why a wispnet host could not be read.
#[derive(Clone, Copy, Debug, PartialEq, Eq, Structural)]
pub enum WispnetHostError {
    /// The part before `.wisp` is not base64.
    NotBase64,
    /// It does not decode to text.
    NotText,
    /// The text is not a server number.
    NotNumber,
}

/// What the policy decides before any name lookup.
#[derive(Debug)]
pub enum Resolution {
    /// Decided without a lookup.
    Resolved(ResolvedPacket),
    /// Allowed: look the host up, then finish with `resolved_from_lookup`.
    Lookup(ConnectPacket),
}

/// The stream the server will open, or why it opens none.
#[derive(Clone, Debug)]
pub enum ResolvedPacket {
    Valid(ConnectPacket),
    ValidWispnet(u32, ConnectPacket),
    NoResolvedAddrs,
    Blocked,
    Invalid,
}

pub enum ResolvedSpec {
    Valid(ConnectSpec),
    ValidWispnet(u32, ConnectSpec),
    NoResolvedAddrs,
    Blocked,
    Invalid,
}

impl View for ResolvedPacket {
    type V = ResolvedSpec;

    open spec fn view(&self) -> ResolvedSpec {
        match self {
            ResolvedPacket::Valid(c) => ResolvedSpec::Valid(c@),
            ResolvedPacket::ValidWispnet(id, c) => ResolvedSpec::ValidWispnet(*id, c@),
            ResolvedPacket::NoResolvedAddrs => ResolvedSpec::NoResolvedAddrs,
            ResolvedPacket::Blocked => ResolvedSpec::Blocked,
            ResolvedPacket::Invalid => ResolvedSpec::Invalid,
        }
    }
}

pub enum ResolutionSpec {
    Resolved(ResolvedSpec),
    Lookup(ConnectSpec),
}

impl View for Resolution {
    type V = ResolutionSpec;

    open spec fn view(&self) -> ResolutionSpec {
        match self {
            Resolution::Resolved(r) => ResolutionSpec::Resolved(r@),
            Resolution::Lookup(c) => ResolutionSpec::Lookup(c@),
        }
    }
}

pub open spec fn wisp_suffix() -> Seq<char> {
    seq!['.', 'w', 'i', 's', 'p']
}

pub open spec fn ends_with(s: Seq<char>, suffix: Seq<char>) -> bool {
    s.len() >= suffix.len() && s.skip(s.len() - suffix.len()) == suffix
}

/// Index of the first occurrence of `pat` in `s` at or after `i`, if any.
pub open spec fn find_from(s: Seq<char>, pat: Seq<char>, i: int) -> Option<int>
    decreases s.len() - i,
{
    if i < 0 || i >= s.len() || i + pat.len() > s.len() {
        None
    } else if s.subrange(i, i + pat.len()) == pat {
        Some(i)
    } else {
        find_from(s, pat, i + 1)
    }
}

proof fn lemma_find_from_bounds(s: Seq<char>, pat: Seq<char>, i: int)
    ensures
        find_from(s, pat, i) matches Some(j) ==> 0 <= i <= j && j + pat.len() <= s.len(),
    decreases s.len() - i,
{
    if !(i < 0 || i >= s.len() || i + pat.len() > s.len()) && s.subrange(i, i + pat.len()) != pat {
        lemma_find_from_bounds(s, pat, i + 1);
    }
}

/// The part of a host before its first `.wisp`.
pub open spec fn wispnet_server_part(host: Seq<char>) -> Seq<char> {
    match find_from(host, wisp_suffix(), 0) {
        Some(i) => host.take(i),
        None => host,
    }
}

/// The server number a wispnet host names: the part before `.wisp`,
/// base64-decoded, read as a decimal `u32`.
pub open spec fn spec_wispnet_id(part: Seq<char>) -> Result<u32, WispnetHostError> {
    match base64_decoded(encode_utf8(part)) {
        None => Err(WispnetHostError::NotBase64),
        Some(b) => if !valid_utf8(b) {
            Err(WispnetHostError::NotText)
        } else {
            match spec_parse_uint(decode_utf8(b), u32::MAX as nat) {
                Some(n) => Ok(n as u32),
                None => Err(WispnetHostError::NotNumber),
            }
        },
    }
}

/// The host patterns that apply to a stream type.
pub open spec fn allowed_for(policy: &StreamPolicy, ty: StreamType) -> Seq<Seq<char>> {
    match ty {
        StreamType::Udp => policy.allowed_udp_hosts.patterns(),
        _ => policy.allowed_tcp_hosts.patterns(),
    }
}

pub open spec fn blocked_for(policy: &StreamPolicy, ty: StreamType) -> Seq<Seq<char>> {
    match ty {
        StreamType::Udp => policy.blocked_udp_hosts.patterns(),
        _ => policy.blocked_tcp_hosts.patterns(),
    }
}

/// A host is refused by a pair of lists when the blocked list matches it
/// and the allowed list does not.
pub open spec fn refused(allowed: Seq<Seq<char>>, blocked: Seq<Seq<char>>, host: Seq<char>) -> bool {
    set_matches(blocked, host) && !set_matches(allowed, host)
}

/// What the policy decides for a requested stream, `ip` being the host read
/// as an IP address, if it is one.
pub open spec fn spec_resolve(policy: &StreamPolicy, p: ConnectSpec, ip: Option<IpAddress>) -> Result<
    ResolutionSpec,
    WispnetHostError,
> {
    let blocked = Ok(ResolutionSpec::Resolved(ResolvedSpec::Blocked));
    if policy.has_wispnet && ends_with(p.host, wisp_suffix()) {
        match spec_wispnet_id(wispnet_server_part(p.host)) {
            Ok(id) => Ok(ResolutionSpec::Resolved(ResolvedSpec::ValidWispnet(id, p))),
            Err(e) => Err(e),
        }
    } else if p.stream_type is Other {
        Ok(ResolutionSpec::Resolved(ResolvedSpec::Invalid))
    } else if !policy.allow_udp && p.stream_type == StreamType::Udp {
        blocked
    } else if in_ranges(policy.blocked_ports@, p.port) && !in_ranges(policy.allowed_ports@, p.port) {
        blocked
    } else if ip is Some && !policy.allow_direct_ip {
        blocked
    } else if ip matches Some(a) && a.spec_is_loopback() && !policy.allow_loopback {
        blocked
    } else if ip matches Some(a) && a.spec_is_multicast() && !policy.allow_multicast {
        blocked
    } else if ip matches Some(a) && ((a.spec_is_global() && !policy.allow_global) || (
    !a.spec_is_global() && !policy.allow_non_global)) {
        blocked
    } else if refused(allowed_for(policy, p.stream_type), blocked_for(policy, p.stream_type), p.host) {
        blocked
    } else if refused(policy.allowed_hosts.patterns(), policy.blocked_hosts.patterns(), p.host)
        && !set_matches(allowed_for(policy, p.stream_type), p.host) {
        blocked
    } else {
        Ok(ResolutionSpec::Lookup(p))
    }
}

/// The policy refuses the address a TCP or UDP stream's host reads as
/// (outside wispnet): direct addresses are not allowed, or the address is
/// loopback, multicast, global or not global and that kind is not allowed.
pub open spec fn address_refused(policy: &StreamPolicy, p: ConnectSpec, ip: Option<IpAddress>) -> bool {
    &&& !(policy.has_wispnet && ends_with(p.host, wisp_suffix()))
    &&& !(p.stream_type is Other)
    &&& ip matches Some(a)
    &&& {
        ||| !policy.allow_direct_ip
        ||| (a.spec_is_loopback() && !policy.allow_loopback)
        ||| (a.spec_is_multicast() && !policy.allow_multicast)
        ||| (a.spec_is_global() && !policy.allow_global)
        ||| (!a.spec_is_global() && !policy.allow_non_global)
    }
}

/// A stream to an address of a kind the policy does not allow is blocked,
/// with no lookup: a loopback address while loopback is not allowed, a
/// multicast one while multicast is not, a global or non-global one while
/// that kind is not, or any address while direct addresses are not.
pub proof fn lemma_refused_addresses_blocked(policy: &StreamPolicy, p: ConnectSpec, ip: Option<IpAddress>)
    ensures
        address_refused(policy, p, ip) ==> spec_resolve(policy, p, ip) == Ok::<
            ResolutionSpec,
            WispnetHostError,
        >(ResolutionSpec::Resolved(ResolvedSpec::Blocked)),
{
}

/// Outside wispnet, a port in a blocked range and in no allowed range is
/// refused whatever the host, and a stream type other than TCP and UDP is
/// invalid.
pub proof fn lemma_policy_refusals(policy: &StreamPolicy, p: ConnectSpec, ip: Option<IpAddress>)
    requires
        !(policy.has_wispnet && ends_with(p.host, wisp_suffix())),
    ensures
        p.stream_type is Other ==> spec_resolve(policy, p, ip) == Ok::<
            ResolutionSpec,
            WispnetHostError,
        >(ResolutionSpec::Resolved(ResolvedSpec::Invalid)),
        !(p.stream_type is Other) && in_ranges(policy.blocked_ports@, p.port) && !in_ranges(
            policy.allowed_ports@,
            p.port,
        ) ==> spec_resolve(policy, p, ip) == Ok::<ResolutionSpec, WispnetHostError>(
            ResolutionSpec::Resolved(ResolvedSpec::Blocked),
        ),
{
}

/// Whether `s` ends with `.wisp`.
fn ends_with_wisp(s: &Vec<char>) -> (r: bool)
    ensures
        r == ends_with(s@, wisp_suffix()),
{
    let n = s.len();
    if n < 5 {
        return false;
    }
    let r = s[n - 5] == '.' && s[n - 4] == 'w' && s[n - 3] == 'i' && s[n - 2] == 's' && s[n - 1]
        == 'p';
    assert(r == (s@.skip(n - 5) =~= wisp_suffix()));
    r
}

/// The index of the first `.wisp` in `s`.
fn find_wisp(s: &Vec<char>) -> (r: Option<usize>)
    ensures
        match find_from(s@, wisp_suffix(), 0) {
            Some(i) => r == Some(i as usize),
            None => r is None,
        },
        r matches Some(i) ==> i + 5 <= s@.len(),
{
    let n = s.len();
    let mut i: usize = 0;
    while n >= 5 && i <= n - 5
        invariant
            n == s@.len(),
            find_from(s@, wisp_suffix(), 0) == find_from(s@, wisp_suffix(), i as int),
        decreases n - i,
    {
        let hit = s[i] == '.' && s[i + 1] == 'w' && s[i + 2] == 'i' && s[i + 3] == 's' && s[i + 4]
            == 'p';
        assert(hit == (s@.subrange(i as int, i + 5) =~= wisp_suffix()));
        if hit {
            return Some(i);
        }
        i += 1;
    }
    None
}

/// Reads the server number out of the part of a wispnet host before `.wisp`.
pub fn wispnet_server_id(part: &str) -> (r: Result<u32, WispnetHostError>)
    ensures
        r == spec_wispnet_id(part@),
{
    let decoded = match base64_standard_decode(part.as_bytes()) {
        Some(d) => d,
        None => {
            return Err(WispnetHostError::NotBase64);
        },
    };
    let text = match string_from_utf8(decoded) {
        Some(t) => t,
        None => {
            return Err(WispnetHostError::NotText);
        },
    };
    match parse_u32(text.as_str()) {
        Some(n) => Ok(n),
        None => Err(WispnetHostError::NotNumber),
    }
}

impl StreamPolicy {
    /// Decides on a requested stream whose host reads as the IP address
    /// literal `ip`, when it reads as one (see `spec_resolve`).
    pub fn resolve_with_ip(&self, packet: ConnectPacket, ip: Option<IpAddress>) -> (r: Result<
        Resolution,
        WispnetHostError,
    >)
        ensures
            match spec_resolve(self, packet@, ip) {
                Ok(res) => r matches Ok(x) && x@ == res,
                Err(e) => r == Err::<Resolution, WispnetHostError>(e),
            },            address_refused(self, packet@, ip) ==> r matches Ok(
                Resolution::Resolved(ResolvedPacket::Blocked),
            ),
    {
        proof {
            lemma_refused_addresses_blocked(self, packet@, ip);
        }
        let host = chars_of(packet.host.as_str());
        if self.has_wispnet && ends_with_wisp(&host) {
            let n = host.len();
            let end = match find_wisp(&host) {
                Some(i) => i,
                None => n,
            };
            let sub = vstd::slice::slice_subrange(host.as_slice(), 0, end);
            assert(sub@ == host@.subrange(0, end as int));
            let part = string_of_chars(sub);
            assert(host@ == packet@.host);
            assert(part@ == wispnet_server_part(packet@.host)) by {
                lemma_find_from_bounds(host@, wisp_suffix(), 0);
                match find_from(host@, wisp_suffix(), 0) {
                    Some(j) => {
                        assert(end as int == j);
                        assert(part@ =~= host@.take(j));
                    },
                    None => {
                        assert(end == host@.len());
                        assert(part@ =~= host@);
                    },
                }
            }
            return match wispnet_server_id(part.as_str()) {
                Ok(id) => Ok(Resolution::Resolved(ResolvedPacket::ValidWispnet(id, packet))),
                Err(e) => Err(e),
            };
        }
        let ty = packet.stream_type;
        let blocked = Ok(Resolution::Resolved(ResolvedPacket::Blocked));
        let (allowed_set, blocked_set) = match ty {
            StreamType::Tcp => (&self.allowed_tcp_hosts, &self.blocked_tcp_hosts),
            StreamType::Udp => (&self.allowed_udp_hosts, &self.blocked_udp_hosts),
            StreamType::Other(_) => {
                return Ok(Resolution::Resolved(ResolvedPacket::Invalid));
            },
        };
        if !self.allow_udp && ty == StreamType::Udp {
            return blocked;
        }
        if ranges_contain(&self.blocked_ports, packet.port) && !ranges_contain(
            &self.allowed_ports,
            packet.port,
        ) {
            return blocked;
        }
        match ip {
            Some(addr) => {
                if !self.allow_direct_ip {
                    return blocked;
                }
                if addr.is_loopback() && !self.allow_loopback {
                    return blocked;
                }
                if addr.is_multicast() && !self.allow_multicast {
                    return blocked;
                }
                let global = addr.is_global();
                if (global && !self.allow_global) || (!global && !self.allow_non_global) {
                    return blocked;
                }
            },
            None => {},
        }
        let host = packet.host.as_str();
        if blocked_set.is_match(host) && !allowed_set.is_match(host) {
            return blocked;
        }
        if self.blocked_hosts.is_match(host) && !self.allowed_hosts.is_match(host)
            && !allowed_set.is_match(host) {
            return blocked;
        }
        Ok(Resolution::Lookup(packet))
    }

    /// Decides on a requested stream (see `spec_resolve`), reading the host
    /// as an IP address literal first: a literal host is judged by its
    /// address, with no lookup.
    pub fn resolve(&self, packet: ConnectPacket) -> (r: Result<Resolution, WispnetHostError>)
        ensures
            match spec_resolve(self, packet@, host_ip(packet.host@)) {
                Ok(res) => r matches Ok(x) && x@ == res,
                Err(e) => r == Err::<Resolution, WispnetHostError>(e),
            },            address_refused(self, packet@, host_ip(packet.host@)) ==> r matches Ok(
                Resolution::Resolved(ResolvedPacket::Blocked),
            ),
    {
        let ip = parse_ip_literal(packet.host.as_str());
        self.resolve_with_ip(packet, ip)
    }
}

/// The index of the first looked-up address the server may use: an IPv4
/// address, or any address when IPv6 is resolved.
pub fn first_usable_address(addrs: &Vec<IpAddress>, resolve_ipv6: bool) -> (r: Option<usize>)
    ensures
        match r {
            Some(i) => {
                &&& i < addrs@.len()
                &&& (resolve_ipv6 || addrs@[i as int] is V4)
                &&& forall|k: int| 0 <= k < i ==> !(resolve_ipv6 || #[trigger] addrs@[k] is V4)
            },
            None => forall|k: int|
                0 <= k < addrs@.len() ==> !(resolve_ipv6 || #[trigger] addrs@[k] is V4),
        },
{
    let mut i: usize = 0;
    while i < addrs.len()
        invariant
            0 <= i <= addrs@.len(),
            forall|k: int| 0 <= k < i ==> !(resolve_ipv6 || #[trigger] addrs@[k] is V4),
        decreases addrs@.len() - i,
    {
        if resolve_ipv6 || addrs[i].is_ipv4() {
            return Some(i);
        }
        i += 1;
    }
    None
}

/// The outcome of a lookup: the stream to the first usable address, written
/// as text, or none when no address was usable.
pub fn resolved_from_lookup(packet: ConnectPacket, first: Option<String>) -> (r: ResolvedPacket)
    ensures
        match first {
            Some(h) => r@ == ResolvedSpec::Valid(
                ConnectSpec { stream_type: packet.stream_type, host: h@, port: packet.port },
            ),
            None => r@ == ResolvedSpec::NoResolvedAddrs,
        },
{
    match first {
        Some(host) => ResolvedPacket::Valid(
            ConnectPacket { stream_type: packet.stream_type, host, port: packet.port },
        ),
        None => ResolvedPacket::NoResolvedAddrs,
    }
}

} // verus!
