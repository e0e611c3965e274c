//! Little-endian integer framing used by every Wisp packet.
use vstd::prelude::*;

verus! {

/// The two bytes of `v` in little-endian order.
pub open spec fn u16_le_bytes(v: u16) -> Seq<u8> {
    seq![(v % 256) as u8, (v / 256) as u8]
}

/// The four bytes of `v` in little-endian order.
pub open spec fn u32_le_bytes(v: u32) -> Seq<u8> {
    seq![(v % 256) as u8, ((v / 256) % 256) as u8, ((v / 65536) % 256) as u8, (v / 16777216) as u8]
}

/// The integer that two little-endian bytes stand for.
pub open spec fn le_u16(b: Seq<u8>) -> u16
    recommends b.len() >= 2,
{
    (b[0] as int + 256 * b[1] as int) as u16
}

/// The integer that four little-endian bytes stand for.
pub open spec fn le_u32(b: Seq<u8>) -> u32
    recommends b.len() >= 4,
{
    (b[0] as int + 256 * b[1] as int + 65536 * b[2] as int + 16777216 * b[3] as int) as u32
}

/// Reading back the little-endian bytes of a `u16` gives it back.
pub proof fn lemma_le_u16_roundtrip(v: u16)
    ensures
        le_u16(u16_le_bytes(v)) == v,
{
}

/// Reading back the little-endian bytes of a `u32` gives it back.
pub proof fn lemma_le_u32_roundtrip(v: u32)
    ensures
        le_u32(u32_le_bytes(v)) == v,
{
}

/// Re-encoding two decoded bytes gives them back.
pub proof fn lemma_u16_bytes_of_le(b: Seq<u8>)
    requires
        b.len() == 2,
    ensures
        u16_le_bytes(le_u16(b)) =~= b,
{
}

/// Re-encoding four decoded bytes gives them back.
pub proof fn lemma_u32_bytes_of_le(b: Seq<u8>)
    requires
        b.len() == 4,
    ensures
        u32_le_bytes(le_u32(b)) =~= b,
{
    let b0 = b[0] as int;
    let b1 = b[1] as int;
    let b2 = b[2] as int;
    let b3 = b[3] as int;
    let v = b0 + 256 * b1 + 65536 * b2 + 16777216 * b3;
    assert(v % 256 == b0 && v / 256 == b1 + 256 * b2 + 65536 * b3) by (nonlinear_arith)
        requires
            0 <= b0 < 256,
            v == b0 + 256 * (b1 + 256 * b2 + 65536 * b3),
            0 <= b1 + 256 * b2 + 65536 * b3,
    ;
    assert((v / 256) % 256 == b1 && v / 65536 == b2 + 256 * b3) by (nonlinear_arith)
        requires
            0 <= b1 < 256,
            v / 256 == b1 + 256 * (b2 + 256 * b3),
            0 <= b2 + 256 * b3,
            v >= 0,
    ;
    assert((v / 65536) % 256 == b2 && v / 16777216 == b3) by (nonlinear_arith)
        requires
            0 <= b2 < 256,
            0 <= b3 < 256,
            v / 65536 == b2 + 256 * b3,
            v >= 0,
    ;
}

/// Appends `v` as two little-endian bytes.
pub fn put_u16_le(out: &mut Vec<u8>, v: u16)
    ensures
        final(out)@ == old(out)@ + u16_le_bytes(v),
{
    let lo: u8 = (v % 256) as u8;
    let hi: u8 = (v / 256) as u8;
    out.push(lo);
    out.push(hi);
    assert(final(out)@ =~= old(out)@ + u16_le_bytes(v));
}

/// Appends `v` as four little-endian bytes.
pub fn put_u32_le(out: &mut Vec<u8>, v: u32)
    ensures
        final(out)@ == old(out)@ + u32_le_bytes(v),
{
    out.push((v % 256) as u8);
    out.push(((v / 256) % 256) as u8);
    out.push(((v / 65536) % 256) as u8);
    out.push((v / 16777216) as u8);
    assert(final(out)@ =~= old(out)@ + u32_le_bytes(v));
}

/// Reads two little-endian bytes at `pos`.
pub fn get_u16_le(b: &[u8], pos: usize) -> (r: u16)
    requires
        pos + 2 <= b@.len(),
    ensures
        r == le_u16(b@.subrange(pos as int, pos + 2)),
{
    (b[pos] as u16) + 256 * (b[pos + 1] as u16)
}

/// Reads four little-endian bytes at `pos`.
pub fn get_u32_le(b: &[u8], pos: usize) -> (r: u32)
    requires
        pos + 4 <= b@.len(),
    ensures
        r == le_u32(b@.subrange(pos as int, pos + 4)),
{
    (b[pos] as u32) + 256 * (b[pos + 1] as u32) + 65536 * (b[pos + 2] as u32) + 16777216 * (
    b[pos + 3] as u32)
}

} // verus!
