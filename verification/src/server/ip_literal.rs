//! Reading a host as an IP address literal, as `IpAddr`'s `FromStr` does:
//! dotted decimal IPv4 first, then IPv6 in its textual forms (groups of up
//! to four hexadecimal digits, at most one `::` standing for one or more
//! zero groups, and an IPv4 address in place of the last two groups).
use vstd::prelude::*;

use crate::server::ip::IpAddress;
use crate::text::{all_digits, chars_of, digits_value, is_digit, pieces_view, split_all, split_pieces};

verus! {

broadcast use vstd::array::group_array_axioms;

// ---------------------------------------------------------------------------
// Digits
// ---------------------------------------------------------------------------
pub open spec fn is_hex_digit(c: char) -> bool {
    ('0' <= c <= '9') || ('a' <= c <= 'f') || ('A' <= c <= 'F')
}

pub open spec fn hex_digit_value(c: char) -> nat {
    if '0' <= c <= '9' {
        (c as int - '0' as int) as nat
    } else if 'a' <= c <= 'f' {
        (c as int - 'a' as int + 10) as nat
    } else {
        (c as int - 'A' as int + 10) as nat
    }
}

/// The value of a string of hexadecimal digits.
pub open spec fn hex_value(s: Seq<char>) -> nat
    decreases s.len(),
{
    if s.len() == 0 {
        0
    } else {
        hex_value(s.drop_last()) * 16 + hex_digit_value(s.last())
    }
}

/// A group of an IPv6 address: one to four hexadecimal digits.
pub open spec fn is_h16(p: Seq<char>) -> bool {
    1 <= p.len() <= 4 && forall|i: int| 0 <= i < p.len() ==> #[trigger] is_hex_digit(p[i])
}

/// A part of an IPv4 address: one to three decimal digits, with no leading
/// zero unless the part is `0`, worth at most 255.
pub open spec fn is_dec_octet(p: Seq<char>) -> bool {
    &&& 1 <= p.len() <= 3
    &&& all_digits(p)
    &&& (p.len() == 1 || p[0] != '0')
    &&& digits_value(p) <= 255
}

// ---------------------------------------------------------------------------
// The textual forms
// ---------------------------------------------------------------------------
/// The bytes of a dotted decimal IPv4 address: four parts separated by dots.
pub open spec fn spec_ipv4_text(s: Seq<char>) -> Option<Seq<u8>> {
    let ps = split_all(s, '.');
    if ps.len() == 4 && forall|i: int| 0 <= i < 4 ==> #[trigger] is_dec_octet(ps[i]) {
        Some(Seq::new(4, |i: int| digits_value(ps[i]) as u8))
    } else {
        None
    }
}

/// The values of groups.
pub open spec fn group_values(ps: Seq<Seq<char>>) -> Seq<u16> {
    Seq::new(ps.len(), |i: int| hex_value(ps[i]) as u16)
}

/// Whether every piece is a group.
pub open spec fn all_h16(ps: Seq<Seq<char>>) -> bool {
    forall|i: int| 0 <= i < ps.len() ==> #[trigger] is_h16(ps[i])
}

/// The 16-bit values that pieces stand for: each piece a group, except that
/// the last one may be an IPv4 address, which stands for two values.
pub open spec fn spec_units(ps: Seq<Seq<char>>) -> Option<Seq<u16>> {
    if all_h16(ps) {
        Some(group_values(ps))
    } else if ps.len() > 0 && all_h16(ps.drop_last()) && spec_ipv4_text(ps.last()) is Some {
        let b = spec_ipv4_text(ps.last())->Some_0;
        Some(
            group_values(ps.drop_last()) + seq![
                (b[0] * 256 + b[1]) as u16,
                (b[2] * 256 + b[3]) as u16,
            ],
        )
    } else {
        None
    }
}

/// The pieces of one side of a `::`: none when the side is empty.
pub open spec fn side_pieces(s: Seq<char>) -> Seq<Seq<char>> {
    if s.len() == 0 {
        Seq::empty()
    } else {
        split_all(s, ':')
    }
}

pub open spec fn double_colon_at(s: Seq<char>, i: int) -> bool {
    0 <= i && i + 1 < s.len() && s[i] == ':' && s[i + 1] == ':'
}

/// Where the first `::` starts.
pub open spec fn first_double_colon(s: Seq<char>) -> Option<int> {
    if exists|i: int| #[trigger] double_colon_at(s, i) {
        Some(
            choose|i: int|
                #[trigger] double_colon_at(s, i) && forall|j: int|
                    0 <= j < i ==> !#[trigger] double_colon_at(s, j),
        )
    } else {
        None
    }
}

/// The segments of an IPv6 address. Without `::`, the pieces between the
/// colons stand for all eight segments. With one, the groups before it come
/// first, the values after it (the last possibly an IPv4 address) come last,
/// at most seven in all, and zeros stand between.
pub open spec fn spec_ipv6_text(s: Seq<char>) -> Option<Seq<u16>> {
    match first_double_colon(s) {
        None => ipv6_without_gap(s),
        Some(g) => ipv6_with_gap(s.take(g), s.skip(g + 2)),
    }
}

/// Eight values, one per piece between the colons (an IPv4 address last
/// standing for two).
#[verifier::opaque]
pub open spec fn ipv6_without_gap(s: Seq<char>) -> Option<Seq<u16>> {
    match spec_units(split_all(s, ':')) {
        Some(v) => if v.len() == 8 {
            Some(v)
        } else {
            None
        },
        None => None,
    }
}

/// The groups of `head`, zeros, then the values of `tail`: at most seven
/// values from the two sides.
#[verifier::opaque]
pub open spec fn ipv6_with_gap(head: Seq<char>, tail: Seq<char>) -> Option<Seq<u16>> {
    let hp = side_pieces(head);
    match spec_units(side_pieces(tail)) {
        Some(tv) => if all_h16(hp) && hp.len() + tv.len() <= 7 {
            Some(group_values(hp) + Seq::new((8 - hp.len() - tv.len()) as nat, |i: int| 0u16) + tv)
        } else {
            None
        },
        None => None,
    }
}

/// The address a host names when it is an IP literal: an IPv4 address when
/// it reads as one, else an IPv6 address when it reads as one.
pub open spec fn host_ip(s: Seq<char>) -> Option<IpAddress> {
    match spec_ipv4_text(s) {
        Some(b) => Some(IpAddress::V4(choose|o: [u8; 4]| o@ == b)),
        None => match spec_ipv6_text(s) {
            Some(v) => Some(IpAddress::V6(choose|g: [u16; 8]| g@ == v)),
            None => None,
        },
    }
}

// ---------------------------------------------------------------------------
// Reading
// ---------------------------------------------------------------------------
/// A part of an IPv4 address and its value, if it is one.
fn dec_octet(p: &Vec<char>) -> (r: Option<u8>)
    ensures
        r == if is_dec_octet(p@) {
            Some(digits_value(p@) as u8)
        } else {
            None::<u8>
        },
{
    let n = p.len();
    if n == 0 || n > 3 {
        return None;
    }
    let mut v: u32 = 0;
    let mut i: usize = 0;
    while i < n
        invariant
            n == p@.len(),
            1 <= n <= 3,
            0 <= i <= n,
            all_digits(p@.take(i as int)),
            v == digits_value(p@.take(i as int)),
            v < 1000,
            i == 0 ==> v == 0,
            i == 1 ==> v < 10,
            i == 2 ==> v < 100,
        decreases n - i,
    {
        let c = p[i];
        assert(p@.take(i + 1).drop_last() =~= p@.take(i as int));
        if !('0' <= c && c <= '9') {
            assert(!is_digit(p@[i as int]));
            assert(!all_digits(p@));
            return None;
        }
        let d = (c as u32) - ('0' as u32);
        v = v * 10 + d;
        i += 1;
        assert(all_digits(p@.take(i as int))) by {
            assert forall|k: int| 0 <= k < i implies #[trigger] is_digit(p@.take(i as int)[k]) by {
                if k < i - 1 {
                    assert(p@.take(i as int)[k] == p@.take(i - 1)[k]);
                }
            }
        }
    }
    assert(p@.take(n as int) =~= p@);
    if n > 1 && p[0] == '0' {
        return None;
    }
    if v > 255 {
        return None;
    }
    Some(v as u8)
}

/// A group of an IPv6 address and its value, if it is one.
fn h16(p: &Vec<char>) -> (r: Option<u16>)
    ensures
        r == if is_h16(p@) {
            Some(hex_value(p@) as u16)
        } else {
            None::<u16>
        },
        r matches Some(x) ==> x == hex_value(p@),
{
    let n = p.len();
    if n == 0 || n > 4 {
        return None;
    }
    let mut v: u32 = 0;
    let mut i: usize = 0;
    while i < n
        invariant
            n == p@.len(),
            1 <= n <= 4,
            0 <= i <= n,
            forall|k: int| 0 <= k < i ==> #[trigger] is_hex_digit(p@[k]),
            v == hex_value(p@.take(i as int)),
            i == 0 ==> v == 0,
            i == 1 ==> v < 16,
            i == 2 ==> v < 256,
            i == 3 ==> v < 4096,
            i == 4 ==> v < 65536,
        decreases n - i,
    {
        let c = p[i];
        assert(p@.take(i + 1).drop_last() =~= p@.take(i as int));
        let d: u32 = if '0' <= c && c <= '9' {
            (c as u32) - ('0' as u32)
        } else if 'a' <= c && c <= 'f' {
            (c as u32) - ('a' as u32) + 10
        } else if 'A' <= c && c <= 'F' {
            (c as u32) - ('A' as u32) + 10
        } else {
            assert(!is_hex_digit(p@[i as int]));
            return None;
        };
        v = v * 16 + d;
        i += 1;
    }
    assert(p@.take(n as int) =~= p@);
    Some(v as u16)
}

/// The bytes of a dotted decimal IPv4 address (see `spec_ipv4_text`).
fn ipv4_of(cs: &Vec<char>) -> (r: Option<[u8; 4]>)
    ensures
        match spec_ipv4_text(cs@) {
            Some(b) => r matches Some(o) && o@ == b,
            None => r is None,
        },
{
    let parts = split_pieces(cs, '.');
    let ghost ps = split_all(cs@, '.');
    if parts.len() != 4 {
        return None;
    }
    assert(forall|i: int| 0 <= i < 4 ==> #[trigger] ps[i] == parts@[i]@);
    let a = match dec_octet(&parts[0]) {
        Some(x) => x,
        None => {
            assert(!is_dec_octet(ps[0]));
            return None;
        },
    };
    let b = match dec_octet(&parts[1]) {
        Some(x) => x,
        None => {
            assert(!is_dec_octet(ps[1]));
            return None;
        },
    };
    let c = match dec_octet(&parts[2]) {
        Some(x) => x,
        None => {
            assert(!is_dec_octet(ps[2]));
            return None;
        },
    };
    let d = match dec_octet(&parts[3]) {
        Some(x) => x,
        None => {
            assert(!is_dec_octet(ps[3]));
            return None;
        },
    };
    let o = [a, b, c, d];
    proof {
        assert forall|i: int| 0 <= i < 4 implies #[trigger] is_dec_octet(ps[i]) by {
            assert(i == 0 || i == 1 || i == 2 || i == 3);
        }
        assert(o@ =~= Seq::new(4, |i: int| digits_value(ps[i]) as u8)) by {
            assert(o@[0] == a && o@[1] == b && o@[2] == c && o@[3] == d);
        }
    }
    Some(o)
}

/// The values of pieces that are all groups, or `None`.
fn group_values_of(parts: &Vec<Vec<char>>) -> (r: Option<Vec<u16>>)
    ensures
        all_h16(pieces_view(parts@)) ==> (r matches Some(v) && v@ == group_values(pieces_view(parts@))),
        !all_h16(pieces_view(parts@)) ==> r is None,
{
    let ghost ps = pieces_view(parts@);
    let mut out: Vec<u16> = Vec::new();
    let mut i: usize = 0;
    while i < parts.len()
        invariant
            0 <= i <= parts@.len(),
            ps == pieces_view(parts@),
            ps.len() == parts@.len(),
            forall|k: int| 0 <= k < i ==> #[trigger] is_h16(ps[k]),
            out@ == group_values(ps.take(i as int)),
        decreases parts@.len() - i,
    {
        assert(ps[i as int] == parts@[i as int]@);
        match h16(&parts[i]) {
            Some(x) => {
                out.push(x);
                i += 1;
                assert(out@ =~= group_values(ps.take(i as int)));
            },
            None => {
                return None;
            },
        }
    }
    assert(ps.take(i as int) =~= ps);
    Some(out)
}

/// The values pieces stand for (see `spec_units`).
fn units_of(parts: &Vec<Vec<char>>) -> (r: Option<Vec<u16>>)
    ensures
        match spec_units(pieces_view(parts@)) {
            Some(v) => r matches Some(x) && x@ == v,
            None => r is None,
        },
{
    let ghost ps = pieces_view(parts@);
    let mut out: Vec<u16> = Vec::new();
    let mut i: usize = 0;
    while i < parts.len()
        invariant
            0 <= i <= parts@.len(),
            ps == pieces_view(parts@),
            ps.len() == parts@.len(),
            forall|k: int| 0 <= k < i ==> #[trigger] is_h16(ps[k]),
            out@ == group_values(ps.take(i as int)),
        decreases parts@.len() - i,
    {
        assert(ps[i as int] == parts@[i as int]@);
        match h16(&parts[i]) {
            Some(x) => {
                out.push(x);
                i += 1;
                assert(out@ =~= group_values(ps.take(i as int)));
            },
            None => {
                assert(!all_h16(ps));
                if i + 1 != parts.len() {
                    assert(!all_h16(ps.drop_last())) by {
                        assert(ps.drop_last()[i as int] == ps[i as int]);
                    }
                    return None;
                }
                assert(ps.drop_last() =~= ps.take(i as int));
                return match ipv4_of(&parts[i]) {
                    Some(o) => {
                        out.push((o[0] as u16) * 256 + (o[1] as u16));
                        out.push((o[2] as u16) * 256 + (o[3] as u16));
                        proof {
                            let b = spec_ipv4_text(ps.last())->Some_0;
                            assert(o@[0] == o[0] && o@[1] == o[1] && o@[2] == o[2] && o@[3] == o[3]);
                            assert(out@ =~= group_values(ps.drop_last()) + seq![
                                (b[0] * 256 + b[1]) as u16,
                                (b[2] * 256 + b[3]) as u16,
                            ]);
                        }
                        Some(out)
                    },
                    None => None,
                };
            },
        }
    }
    assert(ps.take(i as int) =~= ps);
    Some(out)
}

/// Where the first `::` starts, if anywhere.
fn find_double_colon(cs: &Vec<char>) -> (r: Option<usize>)
    ensures
        match r {
            Some(g) => first_double_colon(cs@) == Some(g as int) && double_colon_at(cs@, g as int),
            None => first_double_colon(cs@) is None,
        },
{
    let n = cs.len();
    let mut i: usize = 0;
    while i < n
        invariant
            n == cs@.len(),
            i <= n,
            forall|j: int| 0 <= j < i ==> !#[trigger] double_colon_at(cs@, j),
        decreases n - i,
    {
        if i + 1 < n && cs[i] == ':' && cs[i + 1] == ':' {
            proof {
                let s = cs@;
                assert(double_colon_at(s, i as int));
                let c = choose|c: int|
                    #[trigger] double_colon_at(s, c) && forall|j: int|
                        0 <= j < c ==> !#[trigger] double_colon_at(s, j);
                if c < i {
                } else if c > i {
                    assert(!double_colon_at(s, i as int));
                }
            }
            return Some(i);
        }
        i += 1;
    }
    assert(forall|j: int| !#[trigger] double_colon_at(cs@, j)) by {
        assert forall|j: int| !#[trigger] double_colon_at(cs@, j) by {
            if 0 <= j < i {
            }
        }
    }
    None
}

/// The pieces of one side of a `::` (see `side_pieces`).
fn side_pieces_of(cs: &[char]) -> (r: Vec<Vec<char>>)
    ensures
        pieces_view(r@) == side_pieces(cs@),
{
    if cs.len() == 0 {
        let r: Vec<Vec<char>> = Vec::new();
        assert(pieces_view(r@) =~= Seq::<Seq<char>>::empty());
        r
    } else {
        let v = vstd::slice::slice_to_vec(cs);
        split_pieces(&v, ':')
    }
}

/// Eight values as an array.
fn segments_of(v: &Vec<u16>) -> (r: [u16; 8])
    requires
        v@.len() == 8,
    ensures
        r@ == v@,
{
    let r = [v[0], v[1], v[2], v[3], v[4], v[5], v[6], v[7]];
    assert(r@ =~= v@) by {
        assert(r@[0] == v@[0] && r@[1] == v@[1] && r@[2] == v@[2] && r@[3] == v@[3]);
        assert(r@[4] == v@[4] && r@[5] == v@[5] && r@[6] == v@[6] && r@[7] == v@[7]);
    }
    r
}

/// The groups before a `::`, zeros up to eight values, then the values
/// after it.
fn fill_zeros(hv: &Vec<u16>, tv: &Vec<u16>) -> (r: Vec<u16>)
    requires
        hv@.len() + tv@.len() <= 8,
    ensures
        r@ == hv@ + Seq::new((8 - hv@.len() - tv@.len()) as nat, |k: int| 0u16) + tv@,
{
    let mut out: Vec<u16> = Vec::new();
    let mut i: usize = 0;
    while i < hv.len()
        invariant
            0 <= i <= hv@.len(),
            out@ == hv@.take(i as int),
        decreases hv@.len() - i,
    {
        out.push(hv[i]);
        i += 1;
        assert(out@ =~= hv@.take(i as int));
    }
    assert(hv@.take(hv@.len() as int) =~= hv@);
    let zeros = 8 - hv.len() - tv.len();
    let mut z: usize = 0;
    while z < zeros
        invariant
            0 <= z <= zeros,
            out@ == hv@ + Seq::new(z as nat, |k: int| 0u16),
        decreases zeros - z,
    {
        out.push(0);
        z += 1;
        assert(out@ =~= hv@ + Seq::new(z as nat, |k: int| 0u16));
    }
    let mut j: usize = 0;
    while j < tv.len()
        invariant
            0 <= j <= tv@.len(),
            out@ == hv@ + Seq::new(zeros as nat, |k: int| 0u16) + tv@.take(j as int),
        decreases tv@.len() - j,
    {
        out.push(tv[j]);
        j += 1;
        assert(out@ =~= hv@ + Seq::new(zeros as nat, |k: int| 0u16) + tv@.take(j as int));
    }
    assert(tv@.take(tv@.len() as int) =~= tv@);
    out
}

/// The segments of an IPv6 address without `::` (see `ipv6_without_gap`).
fn ipv6_without_gap_of(cs: &Vec<char>) -> (r: Option<[u16; 8]>)
    ensures
        match ipv6_without_gap(cs@) {
            Some(v) => r matches Some(g) && g@ == v,
            None => r is None,
        },
{
    reveal(ipv6_without_gap);
    let parts = split_pieces(cs, ':');
    match units_of(&parts) {
        Some(v) => {
            if v.len() == 8 {
                Some(segments_of(&v))
            } else {
                None
            }
        },
        None => None,
    }
}

/// The segments of an IPv6 address with `::` between `head` and `tail`
/// (see `ipv6_with_gap`).
fn ipv6_with_gap_of(head: &[char], tail: &[char]) -> (r: Option<[u16; 8]>)
    ensures
        match ipv6_with_gap(head@, tail@) {
            Some(v) => r matches Some(g) && g@ == v,
            None => r is None,
        },
{
    reveal(ipv6_with_gap);
    let hp = side_pieces_of(head);
    let tp = side_pieces_of(tail);
    let tv = match units_of(&tp) {
        Some(v) => v,
        None => return None,
    };
    let hv = match group_values_of(&hp) {
        Some(v) => v,
        None => return None,
    };
    if hv.len() > 7 || tv.len() > 7 - hv.len() {
        return None;
    }
    let out = fill_zeros(&hv, &tv);
    Some(segments_of(&out))
}

/// The segments of an IPv6 address (see `spec_ipv6_text`).
fn ipv6_of(cs: &Vec<char>) -> (r: Option<[u16; 8]>)
    ensures
        match spec_ipv6_text(cs@) {
            Some(v) => r matches Some(g) && g@ == v,
            None => r is None,
        },
{
    match find_double_colon(cs) {
        None => {
            assert(spec_ipv6_text(cs@) == ipv6_without_gap(cs@));
            ipv6_without_gap_of(cs)
        },
        Some(g) => {
            assert(spec_ipv6_text(cs@) == ipv6_with_gap(cs@.take(g as int), cs@.skip(g + 2)));
            assert(double_colon_at(cs@, g as int));
            let n = cs.len();
            assert(g + 2 <= n);
            let head = vstd::slice::slice_subrange(cs.as_slice(), 0, g);
            let tail = vstd::slice::slice_subrange(cs.as_slice(), g + 2, n);
            assert(head@ =~= cs@.take(g as int));
            assert(tail@ =~= cs@.skip(g + 2));
            ipv6_with_gap_of(head, tail)
        },
    }
}

/// Reads a host as an IP address literal, as `IpAddr`'s `FromStr` does (see
/// `host_ip`).
pub fn parse_ip_literal(host: &str) -> (r: Option<IpAddress>)
    ensures
        r == host_ip(host@),
{
    let cs = chars_of(host);
    match ipv4_of(&cs) {
        Some(o) => {
            proof {
                let b = spec_ipv4_text(host@)->Some_0;
                let c = choose|c: [u8; 4]| c@ == b;
                assert(c@ == b);
                assert(o =~= c) by {
                    assert forall|i: int| 0 <= i < 4 implies o[i] == c[i] by {
                        assert(o@[i] == c@[i]);
                    }
                }
            }
            Some(IpAddress::V4(o))
        },
        None => match ipv6_of(&cs) {
            Some(g) => {
                proof {
                    let v = spec_ipv6_text(host@)->Some_0;
                    let c = choose|c: [u16; 8]| c@ == v;
                    assert(c@ == v);
                    assert(g =~= c) by {
                        assert forall|i: int| 0 <= i < 8 implies g[i] == c[i] by {
                            assert(g@[i] == c@[i]);
                        }
                    }
                }
                Some(IpAddress::V6(g))
            },
            None => None,
        },
    }
}

} // verus!
