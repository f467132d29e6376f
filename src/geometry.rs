use vstd::prelude::*;
use crate::bits::{RawVec2, RawVec3};
use crate::number::{i16_at, u16_at, u32_at, le_slice_to_u32, le_slice_to_i16, le_slice_to_u16, slice_from};

verus! {

/// Three 16-bit keys, each standing for `key / 32767` in `[-1, 1]`.
#[derive(Copy, Clone, Debug, PartialEq, Eq, Structural)]
pub struct PackedVec3 {
    pub x: i16,
    pub y: i16,
    pub z: i16,
}

/// Two unsigned 16-bit keys, each standing for `key / 65535` in `[0, 1]`.
#[derive(Copy, Clone, Debug, PartialEq, Eq, Structural)]
pub struct PackedVec2 {
    pub x: u16,
    pub y: u16,
}

/// The per-axis ranges that packed vertex keys are spread over, as bit patterns.
#[derive(Copy, Clone, Debug, PartialEq, Eq, Structural)]
pub struct Bounds3 {
    pub min_x: u32,
    pub max_x: u32,
    pub min_y: u32,
    pub max_y: u32,
    pub min_z: u32,
    pub max_z: u32,
}

/// Four bytes: a skin weight (each byte over 255) or four skin bone ids.
#[derive(Copy, Clone, Debug, PartialEq, Eq, Structural)]
pub struct Byte4 {
    pub a: u8,
    pub b: u8,
    pub c: u8,
    pub d: u8,
}

/// A vertex position: three floats, or three packed keys with the ranges they map into
/// (`key / 32767 * (max - min) + min` per axis).
#[derive(Copy, Clone, Debug, PartialEq, Eq, Structural)]
pub enum Position {
    Plain(RawVec3),
    Packed(PackedVec3, Bounds3),
}

/// A vertex normal: three floats, or three packed keys (`key / 32767`).
#[derive(Copy, Clone, Debug, PartialEq, Eq, Structural)]
pub enum Normal {
    Plain(RawVec3),
    Packed(PackedVec3),
}

/// A texture coordinate: two floats, or two packed keys (`key / 65535`).
#[derive(Copy, Clone, Debug, PartialEq, Eq, Structural)]
pub enum TexCoord {
    Plain(RawVec2),
    Packed(PackedVec2),
}

/// Three words stored at `off`.
pub open spec fn vec3_at(b: Seq<u8>, off: int) -> RawVec3 {
    RawVec3 { x: u32_at(b, off), y: u32_at(b, off + 4), z: u32_at(b, off + 8) }
}

/// Two words stored at `off`.
pub open spec fn vec2_at(b: Seq<u8>, off: int) -> RawVec2 {
    RawVec2 { x: u32_at(b, off), y: u32_at(b, off + 4) }
}

/// Three signed 16-bit keys stored at `off`.
pub open spec fn packed3_at(b: Seq<u8>, off: int) -> PackedVec3 {
    PackedVec3 { x: i16_at(b, off), y: i16_at(b, off + 2), z: i16_at(b, off + 4) }
}

/// Two unsigned 16-bit keys stored at `off`.
pub open spec fn packed2_at(b: Seq<u8>, off: int) -> PackedVec2 {
    PackedVec2 { x: u16_at(b, off), y: u16_at(b, off + 2) }
}

/// Four bytes stored at `off`.
pub open spec fn byte4_at(b: Seq<u8>, off: int) -> Byte4 {
    Byte4 { a: b[off], b: b[off + 1], c: b[off + 2], d: b[off + 3] }
}

/// Six words stored at `off`: min and max of x, then of y, then of z.
pub open spec fn bounds_at(b: Seq<u8>, off: int) -> Bounds3 {
    Bounds3 {
        min_x: u32_at(b, off),
        max_x: u32_at(b, off + 4),
        min_y: u32_at(b, off + 8),
        max_y: u32_at(b, off + 12),
        min_z: u32_at(b, off + 16),
        max_z: u32_at(b, off + 20),
    }
}

pub(crate) fn word(b: &[u8], off: usize) -> (r: u32)
    requires
        off + 4 <= b@.len(),
    ensures
        r == u32_at(b@, off as int),
{
    le_slice_to_u32(slice_from(b, off))
}

pub(crate) fn read_vec3(b: &[u8], off: usize) -> (r: RawVec3)
    requires
        off + 12 <= b@.len(),
    ensures
        r == vec3_at(b@, off as int),
{
    let _ = b.len();
    RawVec3 { x: word(b, off), y: word(b, off + 4), z: word(b, off + 8) }
}

fn read_vec2(b: &[u8], off: usize) -> (r: RawVec2)
    requires
        off + 8 <= b@.len(),
    ensures
        r == vec2_at(b@, off as int),
{
    let _ = b.len();
    RawVec2 { x: word(b, off), y: word(b, off + 4) }
}

fn read_packed3(b: &[u8], off: usize) -> (r: PackedVec3)
    requires
        off + 6 <= b@.len(),
    ensures
        r == packed3_at(b@, off as int),
{
    let _ = b.len();
    PackedVec3 {
        x: le_slice_to_i16(slice_from(b, off)),
        y: le_slice_to_i16(slice_from(b, off + 2)),
        z: le_slice_to_i16(slice_from(b, off + 4)),
    }
}

fn read_packed2(b: &[u8], off: usize) -> (r: PackedVec2)
    requires
        off + 4 <= b@.len(),
    ensures
        r == packed2_at(b@, off as int),
{
    let _ = b.len();
    PackedVec2 { x: le_slice_to_u16(slice_from(b, off)), y: le_slice_to_u16(slice_from(b, off + 2)) }
}

fn read_byte4(b: &[u8], off: usize) -> (r: Byte4)
    requires
        off + 4 <= b@.len(),
    ensures
        r == byte4_at(b@, off as int),
{
    let _ = b.len();
    Byte4 { a: b[off], b: b[off + 1], c: b[off + 2], d: b[off + 3] }
}

pub(crate) fn read_bounds(b: &[u8], off: usize) -> (r: Bounds3)
    requires
        off + 24 <= b@.len(),
    ensures
        r == bounds_at(b@, off as int),
{
    let _ = b.len();
    Bounds3 {
        min_x: word(b, off),
        max_x: word(b, off + 4),
        min_y: word(b, off + 8),
        max_y: word(b, off + 12),
        min_z: word(b, off + 16),
        max_z: word(b, off + 20),
    }
}

/// Appends the `n` vertex positions stored from `off`, each 12 bytes wide, and returns the
/// offset after them; `None` where the bytes end first.
pub(crate) fn read_plain_positions(b: &[u8], off: usize, n: u32, out: &mut Vec<Position>) -> (r: Option<usize>)
    ensures
        off + 12 * n <= b@.len() ==> (r == Some((off + 12 * n) as usize) && final(out)@ == old(out)@
            + Seq::new(n as nat, |k: int| Position::Plain(vec3_at(b@, off + 12 * k)))),
        off + 12 * n > b@.len() ==> r is None,
{
    let len = b.len();
    if off > len || (n as usize) > (len - off) / 12 {
        assert(off + 12 * n > len) by (nonlinear_arith)
            requires
                off > len || n as int > (len - off) as int / 12,
        ;
        return None;
    }
    assert(off + 12 * n <= len) by (nonlinear_arith)
        requires
            off <= len,
            n as int <= (len - off) as int / 12,
    ;
    let ghost start = out@;
    let mut i: usize = 0;
    while i < n as usize
        invariant
            off + 12 * n <= len,
            len == b@.len(),
            i <= n,
            out@ == start + Seq::new(i as nat, |k: int| Position::Plain(vec3_at(b@, off + 12 * k))),
        decreases n - i,
    {
        let o = off + 12 * i;
        let e = Position::Plain(read_vec3(b, o));
        proof {
            assert(start + Seq::new((i + 1) as nat, |k: int| Position::Plain(vec3_at(b@, off + 12 * k))) =~= out@.push(e));
        }
        out.push(e);
        i = i + 1;
    }
    Some(off + 12 * (n as usize))
}

/// Appends the `n` packed vertex positions stored from `off`, each 6 bytes wide, and returns the
/// offset after them; `None` where the bytes end first.
pub(crate) fn read_packed_positions(b: &[u8], off: usize, n: u32, bounds: Bounds3, out: &mut Vec<Position>) -> (r: Option<usize>)
    ensures
        off + 6 * n <= b@.len() ==> (r == Some((off + 6 * n) as usize) && final(out)@ == old(out)@
            + Seq::new(n as nat, |k: int| Position::Packed(packed3_at(b@, off + 6 * k), bounds))),
        off + 6 * n > b@.len() ==> r is None,
{
    let len = b.len();
    if off > len || (n as usize) > (len - off) / 6 {
        assert(off + 6 * n > len) by (nonlinear_arith)
            requires
                off > len || n as int > (len - off) as int / 6,
        ;
        return None;
    }
    assert(off + 6 * n <= len) by (nonlinear_arith)
        requires
            off <= len,
            n as int <= (len - off) as int / 6,
    ;
    let ghost start = out@;
    let mut i: usize = 0;
    while i < n as usize
        invariant
            off + 6 * n <= len,
            len == b@.len(),
            i <= n,
            out@ == start + Seq::new(i as nat, |k: int| Position::Packed(packed3_at(b@, off + 6 * k), bounds)),
        decreases n - i,
    {
        let o = off + 6 * i;
        let e = Position::Packed(read_packed3(b, o), bounds);
        proof {
            assert(start + Seq::new((i + 1) as nat, |k: int| Position::Packed(packed3_at(b@, off + 6 * k), bounds)) =~= out@.push(e));
        }
        out.push(e);
        i = i + 1;
    }
    Some(off + 6 * (n as usize))
}

/// Appends the `n` normals stored from `off`, each 12 bytes wide, and returns the
/// offset after them; `None` where the bytes end first.
pub(crate) fn read_plain_normals(b: &[u8], off: usize, n: u32, out: &mut Vec<Normal>) -> (r: Option<usize>)
    ensures
        off + 12 * n <= b@.len() ==> (r == Some((off + 12 * n) as usize) && final(out)@ == old(out)@
            + Seq::new(n as nat, |k: int| Normal::Plain(vec3_at(b@, off + 12 * k)))),
        off + 12 * n > b@.len() ==> r is None,
{
    let len = b.len();
    if off > len || (n as usize) > (len - off) / 12 {
        assert(off + 12 * n > len) by (nonlinear_arith)
            requires
                off > len || n as int > (len - off) as int / 12,
        ;
        return None;
    }
    assert(off + 12 * n <= len) by (nonlinear_arith)
        requires
            off <= len,
            n as int <= (len - off) as int / 12,
    ;
    let ghost start = out@;
    let mut i: usize = 0;
    while i < n as usize
        invariant
            off + 12 * n <= len,
            len == b@.len(),
            i <= n,
            out@ == start + Seq::new(i as nat, |k: int| Normal::Plain(vec3_at(b@, off + 12 * k))),
        decreases n - i,
    {
        let o = off + 12 * i;
        let e = Normal::Plain(read_vec3(b, o));
        proof {
            assert(start + Seq::new((i + 1) as nat, |k: int| Normal::Plain(vec3_at(b@, off + 12 * k))) =~= out@.push(e));
        }
        out.push(e);
        i = i + 1;
    }
    Some(off + 12 * (n as usize))
}

/// Appends the `n` packed normals stored from `off`, each 6 bytes wide, and returns the
/// offset after them; `None` where the bytes end first.
pub(crate) fn read_packed_normals(b: &[u8], off: usize, n: u32, out: &mut Vec<Normal>) -> (r: Option<usize>)
    ensures
        off + 6 * n <= b@.len() ==> (r == Some((off + 6 * n) as usize) && final(out)@ == old(out)@
            + Seq::new(n as nat, |k: int| Normal::Packed(packed3_at(b@, off + 6 * k)))),
        off + 6 * n > b@.len() ==> r is None,
{
    let len = b.len();
    if off > len || (n as usize) > (len - off) / 6 {
        assert(off + 6 * n > len) by (nonlinear_arith)
            requires
                off > len || n as int > (len - off) as int / 6,
        ;
        return None;
    }
    assert(off + 6 * n <= len) by (nonlinear_arith)
        requires
            off <= len,
            n as int <= (len - off) as int / 6,
    ;
    let ghost start = out@;
    let mut i: usize = 0;
    while i < n as usize
        invariant
            off + 6 * n <= len,
            len == b@.len(),
            i <= n,
            out@ == start + Seq::new(i as nat, |k: int| Normal::Packed(packed3_at(b@, off + 6 * k))),
        decreases n - i,
    {
        let o = off + 6 * i;
        let e = Normal::Packed(read_packed3(b, o));
        proof {
            assert(start + Seq::new((i + 1) as nat, |k: int| Normal::Packed(packed3_at(b@, off + 6 * k))) =~= out@.push(e));
        }
        out.push(e);
        i = i + 1;
    }
    Some(off + 6 * (n as usize))
}

/// Appends the `n` texture coordinates stored from `off`, each 8 bytes wide, and returns the
/// offset after them; `None` where the bytes end first.
pub(crate) fn read_plain_uvs(b: &[u8], off: usize, n: u32, out: &mut Vec<TexCoord>) -> (r: Option<usize>)
    ensures
        off + 8 * n <= b@.len() ==> (r == Some((off + 8 * n) as usize) && final(out)@ == old(out)@
            + Seq::new(n as nat, |k: int| TexCoord::Plain(vec2_at(b@, off + 8 * k)))),
        off + 8 * n > b@.len() ==> r is None,
{
    let len = b.len();
    if off > len || (n as usize) > (len - off) / 8 {
        assert(off + 8 * n > len) by (nonlinear_arith)
            requires
                off > len || n as int > (len - off) as int / 8,
        ;
        return None;
    }
    assert(off + 8 * n <= len) by (nonlinear_arith)
        requires
            off <= len,
            n as int <= (len - off) as int / 8,
    ;
    let ghost start = out@;
    let mut i: usize = 0;
    while i < n as usize
        invariant
            off + 8 * n <= len,
            len == b@.len(),
            i <= n,
            out@ == start + Seq::new(i as nat, |k: int| TexCoord::Plain(vec2_at(b@, off + 8 * k))),
        decreases n - i,
    {
        let o = off + 8 * i;
        let e = TexCoord::Plain(read_vec2(b, o));
        proof {
            assert(start + Seq::new((i + 1) as nat, |k: int| TexCoord::Plain(vec2_at(b@, off + 8 * k))) =~= out@.push(e));
        }
        out.push(e);
        i = i + 1;
    }
    Some(off + 8 * (n as usize))
}

/// Appends the `n` packed texture coordinates stored from `off`, each 4 bytes wide, and returns the
/// offset after them; `None` where the bytes end first.
pub(crate) fn read_packed_uvs(b: &[u8], off: usize, n: u32, out: &mut Vec<TexCoord>) -> (r: Option<usize>)
    ensures
        off + 4 * n <= b@.len() ==> (r == Some((off + 4 * n) as usize) && final(out)@ == old(out)@
            + Seq::new(n as nat, |k: int| TexCoord::Packed(packed2_at(b@, off + 4 * k)))),
        off + 4 * n > b@.len() ==> r is None,
{
    let len = b.len();
    if off > len || (n as usize) > (len - off) / 4 {
        assert(off + 4 * n > len) by (nonlinear_arith)
            requires
                off > len || n as int > (len - off) as int / 4,
        ;
        return None;
    }
    assert(off + 4 * n <= len) by (nonlinear_arith)
        requires
            off <= len,
            n as int <= (len - off) as int / 4,
    ;
    let ghost start = out@;
    let mut i: usize = 0;
    while i < n as usize
        invariant
            off + 4 * n <= len,
            len == b@.len(),
            i <= n,
            out@ == start + Seq::new(i as nat, |k: int| TexCoord::Packed(packed2_at(b@, off + 4 * k))),
        decreases n - i,
    {
        let o = off + 4 * i;
        let e = TexCoord::Packed(read_packed2(b, o));
        proof {
            assert(start + Seq::new((i + 1) as nat, |k: int| TexCoord::Packed(packed2_at(b@, off + 4 * k))) =~= out@.push(e));
        }
        out.push(e);
        i = i + 1;
    }
    Some(off + 4 * (n as usize))
}

/// Appends the `n` 32-bit indices stored from `off`, each 4 bytes wide, and returns the
/// offset after them; `None` where the bytes end first.
pub(crate) fn read_wide_indices(b: &[u8], off: usize, n: u32, out: &mut Vec<u32>) -> (r: Option<usize>)
    ensures
        off + 4 * n <= b@.len() ==> (r == Some((off + 4 * n) as usize) && final(out)@ == old(out)@
            + Seq::new(n as nat, |k: int| u32_at(b@, off + 4 * k))),
        off + 4 * n > b@.len() ==> r is None,
{
    let len = b.len();
    if off > len || (n as usize) > (len - off) / 4 {
        assert(off + 4 * n > len) by (nonlinear_arith)
            requires
                off > len || n as int > (len - off) as int / 4,
        ;
        return None;
    }
    assert(off + 4 * n <= len) by (nonlinear_arith)
        requires
            off <= len,
            n as int <= (len - off) as int / 4,
    ;
    let ghost start = out@;
    let mut i: usize = 0;
    while i < n as usize
        invariant
            off + 4 * n <= len,
            len == b@.len(),
            i <= n,
            out@ == start + Seq::new(i as nat, |k: int| u32_at(b@, off + 4 * k)),
        decreases n - i,
    {
        let o = off + 4 * i;
        let e = word(b, o);
        proof {
            assert(start + Seq::new((i + 1) as nat, |k: int| u32_at(b@, off + 4 * k)) =~= out@.push(e));
        }
        out.push(e);
        i = i + 1;
    }
    Some(off + 4 * (n as usize))
}

/// Appends the `n` 16-bit indices stored from `off`, each 2 bytes wide, and returns the
/// offset after them; `None` where the bytes end first.
pub(crate) fn read_narrow_indices(b: &[u8], off: usize, n: u32, out: &mut Vec<u32>) -> (r: Option<usize>)
    ensures
        off + 2 * n <= b@.len() ==> (r == Some((off + 2 * n) as usize) && final(out)@ == old(out)@
            + Seq::new(n as nat, |k: int| u16_at(b@, off + 2 * k) as u32)),
        off + 2 * n > b@.len() ==> r is None,
{
    let len = b.len();
    if off > len || (n as usize) > (len - off) / 2 {
        assert(off + 2 * n > len) by (nonlinear_arith)
            requires
                off > len || n as int > (len - off) as int / 2,
        ;
        return None;
    }
    assert(off + 2 * n <= len) by (nonlinear_arith)
        requires
            off <= len,
            n as int <= (len - off) as int / 2,
    ;
    let ghost start = out@;
    let mut i: usize = 0;
    while i < n as usize
        invariant
            off + 2 * n <= len,
            len == b@.len(),
            i <= n,
            out@ == start + Seq::new(i as nat, |k: int| u16_at(b@, off + 2 * k) as u32),
        decreases n - i,
    {
        let o = off + 2 * i;
        let e = le_slice_to_u16(slice_from(b, o)) as u32;
        proof {
            assert(start + Seq::new((i + 1) as nat, |k: int| u16_at(b@, off + 2 * k) as u32) =~= out@.push(e));
        }
        out.push(e);
        i = i + 1;
    }
    Some(off + 2 * (n as usize))
}

/// Appends the `n` four-byte entries stored from `off`, each 4 bytes wide, and returns the
/// offset after them; `None` where the bytes end first.
pub(crate) fn read_byte4s(b: &[u8], off: usize, n: u32, out: &mut Vec<Byte4>) -> (r: Option<usize>)
    ensures
        off + 4 * n <= b@.len() ==> (r == Some((off + 4 * n) as usize) && final(out)@ == old(out)@
            + Seq::new(n as nat, |k: int| byte4_at(b@, off + 4 * k))),
        off + 4 * n > b@.len() ==> r is None,
{
    let len = b.len();
    if off > len || (n as usize) > (len - off) / 4 {
        assert(off + 4 * n > len) by (nonlinear_arith)
            requires
                off > len || n as int > (len - off) as int / 4,
        ;
        return None;
    }
    assert(off + 4 * n <= len) by (nonlinear_arith)
        requires
            off <= len,
            n as int <= (len - off) as int / 4,
    ;
    let ghost start = out@;
    let mut i: usize = 0;
    while i < n as usize
        invariant
            off + 4 * n <= len,
            len == b@.len(),
            i <= n,
            out@ == start + Seq::new(i as nat, |k: int| byte4_at(b@, off + 4 * k)),
        decreases n - i,
    {
        let o = off + 4 * i;
        let e = read_byte4(b, o);
        proof {
            assert(start + Seq::new((i + 1) as nat, |k: int| byte4_at(b@, off + 4 * k)) =~= out@.push(e));
        }
        out.push(e);
        i = i + 1;
    }
    Some(off + 4 * (n as usize))
}

/// The two little-endian bytes that store a signed 16-bit key.
pub open spec fn key_bytes(k: i16) -> Seq<u8> {
    let u = k as u16;
    seq![(u % 256) as u8, (u / 256) as u8]
}

/// The six bytes that store three packed keys.
pub open spec fn packed3_bytes(p: PackedVec3) -> Seq<u8> {
    key_bytes(p.x) + key_bytes(p.y) + key_bytes(p.z)
}

/// Packed keys come back unchanged: wherever the six bytes of `p` are stored, reading
/// three keys there gives `p`.
pub proof fn lemma_packed_keys_round_trip(b: Seq<u8>, off: int, p: PackedVec3)
    requires
        0 <= off,
        off + 6 <= b.len(),
        b.subrange(off, off + 6) == packed3_bytes(p),
    ensures
        packed3_at(b, off) == p,
{
    assert forall|i: int| 0 <= i < 6 implies b[off + i] == #[trigger] packed3_bytes(p)[i] by {
        assert(b.subrange(off, off + 6)[i] == b[off + i]);
    }
    let kb = packed3_bytes(p);
    assert(kb =~= seq![
        key_bytes(p.x)[0], key_bytes(p.x)[1],
        key_bytes(p.y)[0], key_bytes(p.y)[1],
        key_bytes(p.z)[0], key_bytes(p.z)[1],
    ]);
    assert(b[off] == kb[0] && b[off + 1] == kb[1] && b[off + 2] == kb[2]);
    assert(b[off + 3] == kb[3] && b[off + 4] == kb[4] && b[off + 5] == kb[5]);
    lemma_key_round_trip(p.x, b[off], b[off + 1]);
    lemma_key_round_trip(p.y, b[off + 2], b[off + 3]);
    lemma_key_round_trip(p.z, b[off + 4], b[off + 5]);
}

proof fn lemma_key_round_trip(k: i16, lo: u8, hi: u8)
    requires
        lo == ((k as u16) % 256) as u8,
        hi == ((k as u16) / 256) as u8,
    ensures
        crate::number::u16_le(lo, hi) as i16 == k,
{
    assert(lo as int + hi as int * 256 == (k as u16) as int);
    assert(((k as u16) as i16) == k) by (bit_vector);
}

} // verus!
