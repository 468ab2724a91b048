//! Sub-pixel lengths, points, scales and positioned glyphs.

use vstd::prelude::*;

verus! {

/// Sub-pixel units in one pixel.
pub const SUBPIXELS: i64 = 64;

/// A position in sub-pixel units.
#[derive(Clone, Copy, Debug, PartialEq, Eq)]
pub struct Point {
    pub x: i64,
    pub y: i64,
}

/// Independent horizontal and vertical pixel scale, in sub-pixel units.
#[derive(Clone, Copy, Debug, PartialEq, Eq)]
pub struct Scale {
    pub x: i64,
    pub y: i64,
}

/// A shape request: which glyph, at what scale, with its origin where.
#[derive(Clone, Copy, Debug, PartialEq, Eq)]
pub struct Glyph {
    pub id: u16,
    pub scale: Scale,
    pub position: Point,
}

/// `v` brought into the range of `i64`: lengths saturate, they never wrap.
pub open spec fn saturate(v: int) -> int {
    if v > i64::MAX {
        i64::MAX as int
    } else if v < i64::MIN {
        i64::MIN as int
    } else {
        v
    }
}

/// The saturating sum of two lengths.
pub fn add_lengths(a: i64, b: i64) -> (sum: i64)
    ensures
        sum == saturate(a + b),
{
    let wide: i128 = a as i128 + b as i128;
    if wide > i64::MAX as i128 {
        i64::MAX
    } else if wide < i64::MIN as i128 {
        i64::MIN
    } else {
        wide as i64
    }
}

/// The sub-pixel length of a whole number of pixels.
pub open spec fn pixels_to_units(pixels: u32) -> int {
    pixels * SUBPIXELS
}

/// The sub-pixel length of `pixels` whole pixels.
pub fn units_of_pixels(pixels: u32) -> (units: i64)
    ensures
        units == pixels_to_units(pixels),
{
    pixels as i64 * SUBPIXELS
}

} // verus!
