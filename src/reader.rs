use vstd::prelude::*;
use vstd::utf8::{decode_utf8, valid_utf8};
use crate::number::{u32_at, byte_at, u32_at_offset};
use crate::text::text_from_utf8;

verus! {

/// Why a decode was given up.
#[derive(Copy, Clone, Debug, PartialEq, Eq, Structural)]
pub enum DecodeError {
    /// The bytes end early, a length runs past the end, or a name is not UTF-8.
    MalformedInput,
    /// A bone id does not fit the bone table.
    OutOfRangeId,
}

/// The text stored at `off` as a one-byte length and that many UTF-8 bytes, with the
/// offset just past it.
pub open spec fn text_at(b: Seq<u8>, off: int) -> Option<(Seq<char>, int)> {
    if 0 <= off < b.len() {
        let end = off + 1 + b[off] as int;
        if end <= b.len() && valid_utf8(b.subrange(off + 1, end)) {
            Some((decode_utf8(b.subrange(off + 1, end)), end))
        } else {
            None
        }
    } else {
        None
    }
}

/// The `u32` at `off` with the offset just past it, if four bytes remain.
pub open spec fn word_at(b: Seq<u8>, off: int) -> Option<(u32, int)> {
    if 0 <= off && off + 4 <= b.len() {
        Some((u32_at(b, off), off + 4))
    } else {
        None
    }
}

/// Reads a length-prefixed UTF-8 text at `off`.
pub fn read_text(b: &[u8], off: usize) -> (r: Option<(String, usize)>)
    ensures
        match text_at(b@, off as int) {
            Some((t, o)) => r matches Some((s, p)) && s@ == t && p == o,
            None => r is None,
        },
{
    if off >= b.len() {
        return None;
    }
    let l = match byte_at(b, off) {
        Some(l) => l as usize,
        None => return None,
    };
    let start = off + 1;
    if l > b.len() - start {
        return None;
    }
    let end = start + l;
    let (head, _) = b.split_at(end);
    let (_, bytes) = head.split_at(start);
    assert(bytes@ =~= b@.subrange(start as int, end as int));
    match text_from_utf8(bytes) {
        Some(s) => Some((s, end)),
        None => None,
    }
}

/// Reads a little-endian `u32` at `off`.
pub fn read_word(b: &[u8], off: usize) -> (r: Option<(u32, usize)>)
    ensures
        match word_at(b@, off as int) {
            Some((v, o)) => r == Some((v, o as usize)),
            None => r is None,
        },
{
    let n = b.len();
    match u32_at_offset(b, off) {
        Some(v) => Some((v, off + 4)),
        None => None,
    }
}

} // verus!
