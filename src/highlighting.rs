//! Value categories and their true colours.

use vstd::prelude::*;

verus! {

/// A 24-bit colour.
#[derive(Clone, Copy, Debug, PartialEq, Eq, Structural)]
pub struct Rgb {
    pub r: u8,
    pub g: u8,
    pub b: u8,
}

/// The category of a highlighted value.
#[derive(Clone, Copy, Debug, PartialEq, Eq, Structural)]
pub enum Type {
    Plain,
    Number,
    String,
}

impl Type {
    /// Numbers red, strings green, everything else white.
    pub fn to_color(&self) -> (r: Rgb)
        ensures
            *self == Type::Number ==> r == (Rgb { r: 220, g: 60, b: 60 }),
            *self == Type::String ==> r == (Rgb { r: 60, g: 220, b: 60 }),
            *self == Type::Plain ==> r == (Rgb { r: 255, g: 255, b: 255 }),
    {
        match self {
            Type::Number => Rgb { r: 220, g: 60, b: 60 },
            Type::String => Rgb { r: 60, g: 220, b: 60 },
            Type::Plain => Rgb { r: 255, g: 255, b: 255 },
        }
    }
}

} // verus!
