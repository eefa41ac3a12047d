//! Colors as packed pixels.

use vstd::prelude::*;

verus! {

/// Represents a single 32BPP A8R8G8B8 color value.
///
/// Can be represented in binary form as `0xAARRGGBB`.
#[derive(Copy, Clone, PartialEq, Eq, Structural, Debug)]
pub struct Pixel32(pub u32);

impl Pixel32 {
    /// The pixel with the given channels: alpha in the uppermost byte, then red, green and
    /// blue.
    pub open spec fn spec_from_channels(a: u8, r: u8, g: u8, b: u8) -> Pixel32 {
        Pixel32((a * 0x100_0000 + r * 0x1_0000 + g * 0x100 + b) as u32)
    }

    /// Pack four channels into a pixel.
    pub fn from_channels(a: u8, r: u8, g: u8, b: u8) -> (pixel: Self)
        ensures
            pixel == Self::spec_from_channels(a, r, g, b),
    {
        assert(((a as u32) << 24) | ((r as u32) << 16) | ((g as u32) << 8) | (b as u32) == (a as u32)
            * 0x100_0000u32 + (r as u32) * 0x1_0000u32 + (g as u32) * 0x100u32 + (b as u32))
            by (bit_vector);
        Pixel32(((a as u32) << 24) | ((r as u32) << 16) | ((g as u32) << 8) | (b as u32))
    }
}

impl Default for Pixel32 {
    /// The pixel with every channel at 0.
    fn default() -> (r: Self)
        ensures
            r == Pixel32(0),
    {
        Pixel32(0)
    }
}

} // verus!
