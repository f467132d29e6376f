use vstd::prelude::*;
use crate::number::u32_le;

verus! {

/// An 8-bit-per-channel colour with alpha.
#[derive(Copy, Clone, Debug, PartialEq, Eq, Structural)]
pub struct ColorRGBA {
    pub r: u8,
    pub g: u8,
    pub b: u8,
    pub a: u8,
}

/// An 8-bit-per-channel colour.
#[derive(Copy, Clone, Debug, PartialEq, Eq, Structural)]
pub struct ColorRGB {
    pub r: u8,
    pub g: u8,
    pub b: u8,
}

impl ColorRGBA {
    /// Transparent black: every channel zero.
    pub fn new() -> (c: ColorRGBA)
        ensures
            c.r == 0 && c.g == 0 && c.b == 0 && c.a == 0,
    {
        ColorRGBA { r: 0, g: 0, b: 0, a: 0 }
    }

    /// Opaque white: every channel 255.
    pub fn white() -> (c: ColorRGBA)
        ensures
            c.r == 255 && c.g == 255 && c.b == 255 && c.a == 255,
    {
        ColorRGBA { r: 255, g: 255, b: 255, a: 255 }
    }

    /// Packs the channels into one word, red in the lowest byte and alpha in the highest.
    pub fn to_u32(self) -> (v: u32)
        ensures
            v as int == u32_le(self.r, self.g, self.b, self.a),
    {
        let b0 = self.r as u32;
        let b1 = self.g as u32;
        let b2 = self.b as u32;
        let b3 = self.a as u32;
        assert((b0 | (b1 << 8u32) | (b2 << 16u32) | (b3 << 24u32)) == b0 + b1 * 0x100 + b2
            * 0x1_0000 + b3 * 0x100_0000) by (bit_vector)
            requires
                b0 < 256,
                b1 < 256,
                b2 < 256,
                b3 < 256,
        ;
        b0 | (b1 << 8u32) | (b2 << 16u32) | (b3 << 24u32)
    }
}

} // verus!
