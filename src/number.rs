use vstd::prelude::*;

verus! {

/// The unsigned value of two little-endian bytes.
pub open spec fn u16_le(b0: u8, b1: u8) -> int {
    b0 as int + b1 as int * 256
}

/// The unsigned value of four little-endian bytes.
pub open spec fn u32_le(b0: u8, b1: u8, b2: u8, b3: u8) -> int {
    b0 as int + b1 as int * 0x100 + b2 as int * 0x1_0000 + b3 as int * 0x100_0000
}

/// The `u16` stored little-endian at `off`.
pub open spec fn u16_at(s: Seq<u8>, off: int) -> u16 {
    u16_le(s[off], s[off + 1]) as u16
}

/// The `i16` stored little-endian (two's complement) at `off`.
pub open spec fn i16_at(s: Seq<u8>, off: int) -> i16 {
    u16_le(s[off], s[off + 1]) as i16
}

/// The `u32` stored little-endian at `off`.
pub open spec fn u32_at(s: Seq<u8>, off: int) -> u32 {
    u32_le(s[off], s[off + 1], s[off + 2], s[off + 3]) as u32
}

/// Reads a little-endian `u16` from the first two bytes of `b`.
pub fn le_slice_to_u16(b: &[u8]) -> (r: u16)
    requires
        b@.len() >= 2,
    ensures
        r as int == u16_le(b@[0], b@[1]),
{
    let lo = b[0] as u16;
    let hi = b[1] as u16;
    assert((lo | (hi << 8u16)) == lo + hi * 256) by (bit_vector)
        requires
            lo < 256,
            hi < 256,
    ;
    lo | (hi << 8u16)
}

/// Reads a little-endian two's-complement `i16` from the first two bytes of `b`.
pub fn le_slice_to_i16(b: &[u8]) -> (r: i16)
    requires
        b@.len() >= 2,
    ensures
        r == u16_le(b@[0], b@[1]) as i16,
{
    le_slice_to_u16(b) as i16
}

/// Reads a little-endian `u32` from the first four bytes of `b`.
pub fn le_slice_to_u32(b: &[u8]) -> (r: u32)
    requires
        b@.len() >= 4,
    ensures
        r as int == u32_le(b@[0], b@[1], b@[2], b@[3]),
{
    let b0 = b[0] as u32;
    let b1 = b[1] as u32;
    let b2 = b[2] as u32;
    let b3 = b[3] as u32;
    assert((b0 | (b1 << 8u32) | (b2 << 16u32) | (b3 << 24u32)) == b0 + b1 * 0x100 + b2 * 0x1_0000
        + b3 * 0x100_0000) by (bit_vector)
        requires
            b0 < 256,
            b1 < 256,
            b2 < 256,
            b3 < 256,
    ;
    b0 | (b1 << 8u32) | (b2 << 16u32) | (b3 << 24u32)
}

/// The byte at `off`, or `None` past the end of `b`.
pub fn byte_at(b: &[u8], off: usize) -> (r: Option<u8>)
    ensures
        r == (if off < b@.len() { Some(b@[off as int]) } else { None::<u8> }),
{
    if off < b.len() {
        Some(b[off])
    } else {
        None
    }
}

/// The little-endian `u16` at `off`, or `None` where fewer than two bytes remain.
pub fn u16_at_offset(b: &[u8], off: usize) -> (r: Option<u16>)
    ensures
        r == (if off + 2 <= b@.len() { Some(u16_at(b@, off as int)) } else { None::<u16> }),
{
    if off <= b.len() && b.len() - off >= 2 {
        let v = le_slice_to_u16(slice_from(b, off));
        Some(v)
    } else {
        None
    }
}

/// The little-endian `u32` at `off`, or `None` where fewer than four bytes remain.
pub fn u32_at_offset(b: &[u8], off: usize) -> (r: Option<u32>)
    ensures
        r == (if off + 4 <= b@.len() { Some(u32_at(b@, off as int)) } else { None::<u32> }),
{
    if off <= b.len() && b.len() - off >= 4 {
        let v = le_slice_to_u32(slice_from(b, off));
        Some(v)
    } else {
        None
    }
}

/// The bytes of `b` from `off` on.
pub fn slice_from(b: &[u8], off: usize) -> (r: &[u8])
    requires
        off <= b@.len(),
    ensures
        r@ == b@.subrange(off as int, b@.len() as int),
{
    let (_, tail) = b.split_at(off);
    tail
}

} // verus!
