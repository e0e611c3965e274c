//! IP addresses and the ranges the stream policy tells apart: loopback,
//! multicast, and what is globally reachable (as Rust 1.82 defines it).
use vstd::prelude::*;

verus! {

/// An IPv4 address by its octets, or an IPv6 address by its segments.
#[derive(Clone, Copy, Debug)]
pub enum IpAddress {
    V4([u8; 4]),
    V6([u16; 8]),
}

// ---------------------------------------------------------------------------
// IPv4
// ---------------------------------------------------------------------------
/// `10.0.0.0/8`, `172.16.0.0/12` and `192.168.0.0/16`.
pub open spec fn v4_is_private(o: [u8; 4]) -> bool {
    ||| o[0] == 10
    ||| (o[0] == 172 && 16 <= o[1] <= 31)
    ||| (o[0] == 192 && o[1] == 168)
}

/// `127.0.0.0/8`.
pub open spec fn v4_is_loopback(o: [u8; 4]) -> bool {
    o[0] == 127
}

/// `169.254.0.0/16`.
pub open spec fn v4_is_link_local(o: [u8; 4]) -> bool {
    o[0] == 169 && o[1] == 254
}

/// `192.0.2.0/24`, `198.51.100.0/24` and `203.0.113.0/24`.
pub open spec fn v4_is_documentation(o: [u8; 4]) -> bool {
    ||| (o[0] == 192 && o[1] == 0 && o[2] == 2)
    ||| (o[0] == 198 && o[1] == 51 && o[2] == 100)
    ||| (o[0] == 203 && o[1] == 0 && o[2] == 113)
}

/// `255.255.255.255`.
pub open spec fn v4_is_broadcast(o: [u8; 4]) -> bool {
    o[0] == 255 && o[1] == 255 && o[2] == 255 && o[3] == 255
}

/// `224.0.0.0/4`.
pub open spec fn v4_is_multicast(o: [u8; 4]) -> bool {
    224 <= o[0] <= 239
}

/// Globally reachable IPv4 addresses: none of "this network", private,
/// shared (`100.64.0.0/10`), loopback, link-local, `192.0.0.0/24` but for
/// `.9` and `.10`, documentation, benchmarking (`198.18.0.0/15`), reserved
/// (`240.0.0.0/4`) and broadcast.
pub open spec fn v4_is_global(o: [u8; 4]) -> bool {
    !(o[0] == 0 || v4_is_private(o) || (o[0] == 100 && 64 <= o[1] <= 127) || v4_is_loopback(o)
        || v4_is_link_local(o) || (o[0] == 192 && o[1] == 0 && o[2] == 0 && o[3] != 9 && o[3]
        != 10) || v4_is_documentation(o) || (o[0] == 198 && (o[1] == 18 || o[1] == 19)) || o[0]
        >= 240 || v4_is_broadcast(o))
}

pub fn ipv4_is_global(o: [u8; 4]) -> (r: bool)
    ensures
        r == v4_is_global(o),
{
    let a = o[0];
    let b = o[1];
    let c = o[2];
    let d = o[3];
    let private = a == 10 || (a == 172 && 16 <= b && b <= 31) || (a == 192 && b == 168);
    let shared = a == 100 && 64 <= b && b <= 127;
    let protocol = a == 192 && b == 0 && c == 0 && d != 9 && d != 10;
    let documentation = (a == 192 && b == 0 && c == 2) || (a == 198 && b == 51 && c == 100) || (a
        == 203 && b == 0 && c == 113);
    let benchmarking = a == 198 && (b == 18 || b == 19);
    let broadcast = a == 255 && b == 255 && c == 255 && d == 255;
    !(a == 0 || private || shared || a == 127 || (a == 169 && b == 254) || protocol
        || documentation || benchmarking || a >= 240 || broadcast)
}

// ---------------------------------------------------------------------------
// IPv6
// ---------------------------------------------------------------------------
/// `::`.
pub open spec fn v6_is_unspecified(s: [u16; 8]) -> bool {
    forall|i: int| 0 <= i < 8 ==> s[i] == 0
}

/// `::1`.
pub open spec fn v6_is_loopback(s: [u16; 8]) -> bool {
    (forall|i: int| 0 <= i < 7 ==> s[i] == 0) && s[7] == 1
}

/// `ff00::/8`.
pub open spec fn v6_is_multicast(s: [u16; 8]) -> bool {
    s[0] >= 0xff00
}

/// The address starts with these segments.
pub open spec fn v6_has(s: [u16; 8], prefix: Seq<u16>) -> bool {
    forall|i: int| 0 <= i < prefix.len() ==> s[i] == prefix[i]
}

/// The IETF protocol assignments (`2001::/23`) that are globally reachable:
/// `2001:1::1`, `2001:1::2`, `2001:3::/32`, `2001:4:112::/48` and
/// `2001:20::/27`.
pub open spec fn v6_ietf_global(s: [u16; 8]) -> bool {
    ||| (v6_has(s, seq![0x2001u16, 1, 0, 0, 0, 0, 0]) && (s[7] == 1 || s[7] == 2))
    ||| (s[0] == 0x2001 && s[1] == 3)
    ||| (s[0] == 0x2001 && s[1] == 4 && s[2] == 0x112)
    ||| (s[0] == 0x2001 && 0x20 <= s[1] <= 0x3f)
}

/// Unicast link-local (`fe80::/10`).
pub open spec fn v6_is_link_local(s: [u16; 8]) -> bool {
    0xfe80 <= s[0] <= 0xfebf
}

/// Globally reachable IPv6 addresses: none of unspecified, loopback,
/// IPv4-mapped (`::ffff:0:0/96`), IPv4-IPv6 translation (`64:ff9b:1::/48`),
/// discard-only (`100::/64`), the IETF assignments of `2001::/23` that are
/// not globally reachable, 6to4 (`2002::/16`), documentation
/// (`2001:db8::/32`), unique local (`fc00::/7`) and unicast link-local
/// (`fe80::/10`), as Rust 1.82's `Ipv6Addr::is_global` has it.
pub open spec fn v6_is_global(s: [u16; 8]) -> bool {
    !(v6_is_unspecified(s) || v6_is_loopback(s) || v6_has(s, seq![0u16, 0, 0, 0, 0, 0xffff])
        || v6_has(s, seq![0x64u16, 0xff9b, 1]) || v6_has(s, seq![0x100u16, 0, 0, 0]) || (s[0]
        == 0x2001 && s[1] < 0x200 && !v6_ietf_global(s)) || s[0] == 0x2002 || (s[0] == 0x2001
        && s[1] == 0xdb8) || (0xfc00 <= s[0] <= 0xfdff) || v6_is_link_local(s))
}

fn v6_is_unspecified_exec(s: [u16; 8]) -> (r: bool)
    ensures
        r == v6_is_unspecified(s),
{
    let r = s[0] == 0 && s[1] == 0 && s[2] == 0 && s[3] == 0 && s[4] == 0 && s[5] == 0 && s[6]
        == 0 && s[7] == 0;
    assert(r ==> forall|i: int| 0 <= i < 8 ==> s[i] == 0) by {
        if r {
            assert forall|i: int| 0 <= i < 8 implies s[i] == 0 by {
                assert(i == 0 || i == 1 || i == 2 || i == 3 || i == 4 || i == 5 || i == 6 || i
                    == 7);
            }
        }
    }
    r
}

fn v6_is_loopback_exec(s: [u16; 8]) -> (r: bool)
    ensures
        r == v6_is_loopback(s),
{
    let r = s[0] == 0 && s[1] == 0 && s[2] == 0 && s[3] == 0 && s[4] == 0 && s[5] == 0 && s[6]
        == 0 && s[7] == 1;
    assert(r ==> forall|i: int| 0 <= i < 7 ==> s[i] == 0) by {
        if r {
            assert forall|i: int| 0 <= i < 7 implies s[i] == 0 by {
                assert(i == 0 || i == 1 || i == 2 || i == 3 || i == 4 || i == 5 || i == 6);
            }
        }
    }
    r
}

pub fn ipv6_is_global(s: [u16; 8]) -> (r: bool)
    ensures
        r == v6_is_global(s),
{
    let mapped = s[0] == 0 && s[1] == 0 && s[2] == 0 && s[3] == 0 && s[4] == 0 && s[5] == 0xffff;
    assert(mapped == v6_has(s, seq![0u16, 0, 0, 0, 0, 0xffff]));
    let translated = s[0] == 0x64 && s[1] == 0xff9b && s[2] == 1;
    assert(translated == v6_has(s, seq![0x64u16, 0xff9b, 1]));
    let discard = s[0] == 0x100 && s[1] == 0 && s[2] == 0 && s[3] == 0;
    assert(discard == v6_has(s, seq![0x100u16, 0, 0, 0]));
    let anycast = s[0] == 0x2001 && s[1] == 1 && s[2] == 0 && s[3] == 0 && s[4] == 0 && s[5] == 0
        && s[6] == 0 && (s[7] == 1 || s[7] == 2);
    assert(anycast == (v6_has(s, seq![0x2001u16, 1, 0, 0, 0, 0, 0]) && (s[7] == 1 || s[7] == 2)));
    let ietf_global = anycast || (s[0] == 0x2001 && s[1] == 3) || (s[0] == 0x2001 && s[1] == 4
        && s[2] == 0x112) || (s[0] == 0x2001 && 0x20 <= s[1] && s[1] <= 0x3f);
    let ietf = s[0] == 0x2001 && s[1] < 0x200 && !ietf_global;
    !(v6_is_unspecified_exec(s) || v6_is_loopback_exec(s) || mapped || translated || discard
        || ietf || s[0] == 0x2002 || (s[0] == 0x2001 && s[1] == 0xdb8) || (0xfc00 <= s[0] && s[0]
        <= 0xfdff) || (0xfe80 <= s[0] && s[0] <= 0xfebf))
}

/// Loopback, private, link-local and unspecified addresses are never
/// globally reachable.
pub proof fn lemma_local_not_global(a: IpAddress)
    ensures
        a.spec_is_loopback() ==> !a.spec_is_global(),
        (a matches IpAddress::V4(o) && (v4_is_private(o) || v4_is_link_local(o)))
            ==> !a.spec_is_global(),
        (a matches IpAddress::V6(s) && (v6_is_unspecified(s) || v6_is_link_local(s))) ==> !a.spec_is_global(),
{
}

// ---------------------------------------------------------------------------
// Either family
// ---------------------------------------------------------------------------
impl IpAddress {
    pub open spec fn spec_is_global(self) -> bool {
        match self {
            IpAddress::V4(o) => v4_is_global(o),
            IpAddress::V6(s) => v6_is_global(s),
        }
    }

    pub open spec fn spec_is_loopback(self) -> bool {
        match self {
            IpAddress::V4(o) => v4_is_loopback(o),
            IpAddress::V6(s) => v6_is_loopback(s),
        }
    }

    pub open spec fn spec_is_multicast(self) -> bool {
        match self {
            IpAddress::V4(o) => v4_is_multicast(o),
            IpAddress::V6(s) => v6_is_multicast(s),
        }
    }

    /// Whether the address is globally reachable.
    pub fn is_global(&self) -> (r: bool)
        ensures
            r == self.spec_is_global(),
    {
        match self {
            IpAddress::V4(o) => ipv4_is_global(*o),
            IpAddress::V6(s) => ipv6_is_global(*s),
        }
    }

    pub fn is_loopback(&self) -> (r: bool)
        ensures
            r == self.spec_is_loopback(),
    {
        match self {
            IpAddress::V4(o) => o[0] == 127,
            IpAddress::V6(s) => v6_is_loopback_exec(*s),
        }
    }

    pub fn is_multicast(&self) -> (r: bool)
        ensures
            r == self.spec_is_multicast(),
    {
        match self {
            IpAddress::V4(o) => 224 <= o[0] && o[0] <= 239,
            IpAddress::V6(s) => s[0] >= 0xff00,
        }
    }

    pub fn is_ipv4(&self) -> (r: bool)
        ensures
            r == (self is V4),
    {
        match self {
            IpAddress::V4(_) => true,
            IpAddress::V6(_) => false,
        }
    }
}

} // verus!
