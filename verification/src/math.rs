//! Fixed-point vectors and colours.

use vstd::prelude::*;

verus! {

/// Fixed-point units per pixel. A length of 12.5 pixels is 12_500 units.
pub const UNITS_PER_PIXEL: i64 = 1000;

/// Every coordinate and extent of a well-formed object lies within
/// `-COORD_LIMIT ..= COORD_LIMIT` (2^56 units).
pub const COORD_LIMIT: i64 = 0x100_0000_0000_0000;

/// Every velocity component of a well-formed object lies within
/// `-SPEED_LIMIT ..= SPEED_LIMIT` (2^20 units per millisecond).
pub const SPEED_LIMIT: i64 = 0x10_0000;

/// A point, an extent or a velocity in the plane. `x` grows to the right and
/// `y` grows downward, as on screen.
#[derive(Clone, Copy, Debug, PartialEq, Eq, Structural)]
pub struct Vec2 {
    pub x: i64,
    pub y: i64,
}

impl Vec2 {
    /// Both components lie within `-limit ..= limit`.
    pub open spec fn within(self, limit: int) -> bool {
        &&& -limit <= self.x <= limit
        &&& -limit <= self.y <= limit
    }

    /// Neither component is negative.
    pub open spec fn non_negative(self) -> bool {
        self.x >= 0 && self.y >= 0
    }

    pub fn new(x: i64, y: i64) -> (v: Vec2)
        ensures
            v == (Vec2 { x, y }),
    {
        Vec2 { x, y }
    }

    /// The vector of `x` by `y` whole pixels.
    pub fn from_pixels(x: i32, y: i32) -> (v: Vec2)
        ensures
            v.x == x * UNITS_PER_PIXEL,
            v.y == y * UNITS_PER_PIXEL,
    {
        let wide_x: i64 = x as i64;
        let wide_y: i64 = y as i64;
        Vec2 { x: wide_x * UNITS_PER_PIXEL, y: wide_y * UNITS_PER_PIXEL }
    }
}

/// The length of `pixels` whole pixels, in units.
pub open spec fn units(pixels: u32) -> int {
    pixels * UNITS_PER_PIXEL
}

/// The length of `pixels` whole pixels, in units.
pub fn to_units(pixels: u32) -> (u: i64)
    ensures
        u == units(pixels),
        0 <= u <= 0xffff_ffff * UNITS_PER_PIXEL,
{
    let wide: i64 = pixels as i64;
    wide * UNITS_PER_PIXEL
}

/// A tint. Each channel runs from 0 (none) to 1000 (full).
#[derive(Clone, Copy, Debug, PartialEq, Eq, Structural)]
pub struct Color {
    pub r: u16,
    pub g: u16,
    pub b: u16,
}

impl Color {
    /// Full intensity on every channel: a sprite drawn with it keeps its own colours.
    pub open spec fn white() -> Color {
        Color { r: 1000, g: 1000, b: 1000 }
    }

    pub fn new(r: u16, g: u16, b: u16) -> (c: Color)
        ensures
            c == (Color { r, g, b }),
    {
        Color { r, g, b }
    }
}

} // verus!
