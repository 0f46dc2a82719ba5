//! Colours of a palette.

use vstd::prelude::*;

verus! {

/// An opaque colour: one byte each for red, green and blue.
#[derive(Debug, Clone, Copy, PartialEq, Eq, Structural)]
pub struct Color {
    pub r: u8,
    pub g: u8,
    pub b: u8,
}

impl Color {
    /// The colour with the given channels.
    pub fn new(r: u8, g: u8, b: u8) -> (color: Color)
        ensures
            color == (Color { r, g, b }),
    {
        Color { r, g, b }
    }

    /// The three channels in the order in which a pixel stores them.
    pub open spec fn channels(self) -> Seq<u8> {
        seq![self.r, self.g, self.b]
    }
}

impl Default for Color {
    /// Black, the colour with every channel at zero.
    fn default() -> (color: Color)
        ensures
            color == (Color { r: 0, g: 0, b: 0 }),
    {
        Color { r: 0, g: 0, b: 0 }
    }
}

} // verus!
