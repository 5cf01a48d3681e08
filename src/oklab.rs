//! Colors.

use vstd::prelude::*;

verus! {

/// An sRGB color with straight (not premultiplied) alpha, packed with red in
/// the lowest byte and alpha in the highest: `0xAABBGGRR`.
#[derive(Debug, Default, Clone, Copy, PartialEq, Eq, Structural)]
pub struct StraightRgba(pub u32);

/// `x` with its four bytes in reverse order.
pub open spec fn byte_swapped(x: u32) -> u32 {
    ((x & 0xff) << 24) | (((x >> 8) & 0xff) << 16) | (((x >> 16) & 0xff) << 8) | ((x >> 24) & 0xff)
}

impl StraightRgba {
    /// From a color written `0xRRGGBBAA`.
    pub fn from_be(color: u32) -> (r: Self)
        ensures
            r.0 == byte_swapped(color),
    {
        StraightRgba(((color & 0xff) << 24) | (((color >> 8) & 0xff) << 16) | (((color >> 16)
            & 0xff) << 8) | ((color >> 24) & 0xff))
    }

    /// From a color written `0xAABBGGRR`.
    pub fn from_le(color: u32) -> (r: Self)
        ensures
            r.0 == color,
    {
        StraightRgba(color)
    }

    /// The packed value, `0xAABBGGRR`.
    pub fn to_le(self) -> (r: u32)
        ensures
            r == self.0,
    {
        self.0
    }

    /// Fully transparent black.
    pub fn zero() -> (r: Self)
        ensures
            r.0 == 0,
    {
        StraightRgba(0)
    }
}

} // verus!
