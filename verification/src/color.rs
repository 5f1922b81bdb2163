//! RGB color values and their packed 32-bit form.

use vstd::prelude::*;

verus! {

/// An RGB color with 8 bits per channel.
#[derive(Clone, Copy, PartialEq, Eq, Structural, Debug)]
pub struct Color {
    pub r: u8,
    pub g: u8,
    pub b: u8,
}

/// The packed `0x00RRGGBB` form of a color.
pub open spec fn packed(c: Color) -> int {
    c.r * 0x10000 + c.g * 0x100 + c.b
}

impl Color {
    pub fn new(r: u8, g: u8, b: u8) -> (c: Color)
        ensures
            c == (Color { r, g, b }),
    {
        Color { r, g, b }
    }

    /// Pack the three channels into one `0x00RRGGBB` word.
    pub fn to_hex(&self) -> (h: u32)
        ensures
            h == packed(*self),
    {
        (self.r as u32) * 0x10000 + (self.g as u32) * 0x100 + (self.b as u32)
    }
}

} // verus!
