//! Logical color references and concrete RGBA pixel values.

use vstd::prelude::*;

verus! {

/// The eight base terminal colors.
#[derive(Clone, Copy, Debug, PartialEq, Eq, Structural)]
pub enum Color {
    Black,
    Red,
    Green,
    Yellow,
    Blue,
    Magenta,
    Cyan,
    White,
}

/// A logical color reference as produced by SGR interpretation; it is
/// resolved to a concrete value only against a palette.
#[derive(Clone, Copy, Debug, PartialEq, Eq, Structural)]
pub enum ColorType {
    PrimaryForeground,
    PrimaryBackground,
    Normal(Color),
    Bright(Color),
    Fixed(u8),
    Rgb(u8, u8, u8),
}

/// One RGBA color value; the alpha channel is 255 for fully opaque.
#[derive(Clone, Copy, Debug, PartialEq, Eq, Structural)]
pub struct Rgba {
    pub r: u8,
    pub g: u8,
    pub b: u8,
    pub a: u8,
}

/// Shorthand for building an `Rgba` value in specifications.
pub open spec fn rgba(r: u8, g: u8, b: u8, a: u8) -> Rgba {
    Rgba { r, g, b, a }
}

impl Rgba {
    pub fn new(r: u8, g: u8, b: u8, a: u8) -> (c: Rgba)
        ensures
            c == rgba(r, g, b, a),
    {
        Rgba { r, g, b, a }
    }
}

} // verus!
