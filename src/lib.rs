//! Colour notations: parsing text into a canonical colour and rendering a
//! colour back into text, with the rules of each notation proved.

pub mod cmyk;
pub mod color;
pub mod hex;
pub mod hsl;
pub mod hsv;
pub mod hwb;
pub mod notation;
pub mod rgb;
pub mod text;
