//! RGB color values used by layers, keys and categories.

use vstd::prelude::*;

verus! {

/// An RGB color with 8-bit channels.
#[derive(Clone, Copy, Debug, PartialEq, Eq, Structural)]
pub struct RgbColor {
    pub r: u8,
    pub g: u8,
    pub b: u8,
}

impl RgbColor {
    /// Creates a color from its three channels.
    pub fn new(r: u8, g: u8, b: u8) -> (c: RgbColor)
        ensures
            c.r == r,
            c.g == g,
            c.b == b,
    {
        RgbColor { r, g, b }
    }
}

} // verus!
