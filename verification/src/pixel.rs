//! Colours and the unit of work that travels from a worker to the consumer.

use vstd::prelude::*;

verus! {

/// An RGB colour, one byte per channel.
#[derive(Clone, Copy, Debug, PartialEq, Eq, Structural)]
pub struct Color {
    pub red: u8,
    pub green: u8,
    pub blue: u8,
}

impl Color {
    /// Pure white, the colour of every background pixel.
    pub open spec fn spec_white() -> Color {
        Color { red: 255, green: 255, blue: 255 }
    }

    /// Black, the colour of a pixel that nothing was written to.
    pub open spec fn spec_black() -> Color {
        Color { red: 0, green: 0, blue: 0 }
    }

    #[verifier::when_used_as_spec(spec_white)]
    pub fn white() -> (c: Color)
        ensures
            c == Color::spec_white(),
    {
        Color { red: 255, green: 255, blue: 255 }
    }

    #[verifier::when_used_as_spec(spec_black)]
    pub fn black() -> (c: Color)
        ensures
            c == Color::spec_black(),
    {
        Color { red: 0, green: 0, blue: 0 }
    }
}

/// The colour computed for one pixel, with the coordinate it belongs to.
///
/// The coordinate may lie outside the image; the consumer counts such a
/// result and writes nothing.
#[derive(Clone, Copy, Debug, PartialEq, Eq, Structural)]
pub struct PixelResult {
    pub column: u32,
    pub row: u32,
    pub color: Color,
}

} // verus!
