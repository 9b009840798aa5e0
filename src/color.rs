use vstd::prelude::*;

verus! {

/// The canonical colour: three 8-bit channels and an 8-bit alpha, where 255
/// is fully opaque. Every `u8` value is a valid channel value.
#[derive(Clone, Copy, Debug, PartialEq, Eq, Structural)]
pub struct Color {
    pub red: u8,
    pub green: u8,
    pub blue: u8,
    pub alpha: u8,
}

impl Color {
    /// An opaque colour.
    pub fn rgb(red: u8, green: u8, blue: u8) -> (r: Color)
        ensures
            r == (Color { red, green, blue, alpha: 255 }),
    {
        Color { red, green, blue, alpha: 255 }
    }

    /// A colour with an explicit alpha.
    pub fn rgba(red: u8, green: u8, blue: u8, alpha: u8) -> (r: Color)
        ensures
            r == (Color { red, green, blue, alpha }),
    {
        Color { red, green, blue, alpha }
    }
}

/// The one error kind of parsing: a message saying what failed.
#[derive(Clone, Debug, PartialEq, Eq)]
pub enum ColorError {
    ParsingError(String),
}

impl ColorError {
    pub open spec fn message(&self) -> Seq<char> {
        match self {
            ColorError::ParsingError(m) => m@,
        }
    }
}

/// Where the alpha channel stands in notations that can carry it.
#[derive(Clone, Copy, Debug, PartialEq, Eq, Structural)]
pub enum AlphaPosition {
    /// Alpha is neither written nor read.
    Hidden,
    /// Alpha comes before the colour channels.
    Leading,
    /// Alpha comes after the colour channels.
    Trailing,
}

impl AlphaPosition {
    /// The position stored under a settings index: 1 is leading, 2 is
    /// trailing; any other index means no alpha.
    pub open spec fn of_index_spec(i: u32) -> AlphaPosition {
        if i == 1 {
            AlphaPosition::Leading
        } else if i == 2 {
            AlphaPosition::Trailing
        } else {
            AlphaPosition::Hidden
        }
    }

    pub fn from_index(i: u32) -> (r: AlphaPosition)
        ensures
            r == Self::of_index_spec(i),
    {
        if i == 1 {
            AlphaPosition::Leading
        } else if i == 2 {
            AlphaPosition::Trailing
        } else {
            AlphaPosition::Hidden
        }
    }
}

} // verus!
