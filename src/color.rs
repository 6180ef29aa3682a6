//! Opaque colors by their 8-bit red, green and blue channels.
use vstd::prelude::*;

verus! {

/// A color compared and hashed exactly, channel by channel.
#[derive(Clone, Copy, Debug, PartialEq, Eq, Structural, Hash)]
pub struct StrictColor {
    pub r: u8,
    pub g: u8,
    pub b: u8,
}

impl StrictColor {
    pub fn new(r: u8, g: u8, b: u8) -> (c: StrictColor)
        ensures
            c.r == r && c.g == g && c.b == b,
    {
        StrictColor { r, g, b }
    }
}

} // verus!
