use vstd::prelude::*;

verus! {

/// The bit pattern of the single-precision value 1.0.
pub const ONE_BITS: u32 = 0x3F80_0000;

/// The sign bit of a single-precision bit pattern.
pub const SIGN_BIT: u32 = 0x8000_0000;

/// The largest magnitude (sign bit cleared) that is not a NaN: the infinity.
pub const INFINITY_BITS: u32 = 0x7F80_0000;

/// Two single-precision values, as their IEEE-754 bit patterns.
#[derive(Copy, Clone, Debug, PartialEq, Eq, Structural)]
pub struct RawVec2 {
    pub x: u32,
    pub y: u32,
}

/// Three single-precision values, as their IEEE-754 bit patterns.
#[derive(Copy, Clone, Debug, PartialEq, Eq, Structural)]
pub struct RawVec3 {
    pub x: u32,
    pub y: u32,
    pub z: u32,
}

/// Four single-precision values, as their IEEE-754 bit patterns.
#[derive(Copy, Clone, Debug, PartialEq, Eq, Structural)]
pub struct RawVec4 {
    pub x: u32,
    pub y: u32,
    pub z: u32,
    pub w: u32,
}

/// The value's magnitude bits: the pattern with its sign bit cleared.
pub open spec fn magnitude(b: u32) -> int {
    if b >= SIGN_BIT {
        b - SIGN_BIT
    } else {
        b as int
    }
}

/// Whether the pattern encodes a NaN: all exponent bits set and a non-zero fraction.
pub open spec fn is_nan_bits(b: u32) -> bool {
    magnitude(b) > INFINITY_BITS
}

/// An integer that orders non-NaN patterns as the values they encode; both zeros map to 0.
pub open spec fn order_key(b: u32) -> int {
    if b >= SIGN_BIT {
        -magnitude(b)
    } else {
        magnitude(b)
    }
}

/// `a < b` on the encoded values; false when either is a NaN.
pub open spec fn bits_lt(a: u32, b: u32) -> bool {
    !is_nan_bits(a) && !is_nan_bits(b) && order_key(a) < order_key(b)
}

/// `a <= b` on the encoded values; false when either is a NaN.
pub open spec fn bits_le(a: u32, b: u32) -> bool {
    !is_nan_bits(a) && !is_nan_bits(b) && order_key(a) <= order_key(b)
}

/// The larger of two encoded values; a NaN yields to the other operand.
pub open spec fn bits_max(a: u32, b: u32) -> u32 {
    if is_nan_bits(a) {
        b
    } else if is_nan_bits(b) {
        a
    } else if order_key(a) < order_key(b) {
        b
    } else {
        a
    }
}

fn key_of(b: u32) -> (r: (bool, i64))
    ensures
        r.0 == is_nan_bits(b),
        r.1 as int == order_key(b),
{
    if b >= SIGN_BIT {
        let m = b - SIGN_BIT;
        (m > INFINITY_BITS, -(m as i64))
    } else {
        (b > INFINITY_BITS, b as i64)
    }
}

/// Compares two encoded values with `<`.
pub fn f32_bits_lt(a: u32, b: u32) -> (r: bool)
    ensures
        r == bits_lt(a, b),
{
    let (na, ka) = key_of(a);
    let (nb, kb) = key_of(b);
    !na && !nb && ka < kb
}

/// Compares two encoded values with `<=`.
pub fn f32_bits_le(a: u32, b: u32) -> (r: bool)
    ensures
        r == bits_le(a, b),
{
    let (na, ka) = key_of(a);
    let (nb, kb) = key_of(b);
    !na && !nb && ka <= kb
}

/// The larger of two encoded values, a NaN giving way to the other operand.
pub fn f32_bits_max(a: u32, b: u32) -> (r: u32)
    ensures
        r == bits_max(a, b),
{
    let (na, ka) = key_of(a);
    let (nb, kb) = key_of(b);
    if na {
        b
    } else if nb {
        a
    } else if ka < kb {
        b
    } else {
        a
    }
}

} // verus!
