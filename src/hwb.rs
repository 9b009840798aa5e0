//! The HWB notation `hwb(h, w%, b%)`: hue in whole degrees, whiteness and
//! blackness in whole percents. Hue wraps modulo 360 as in HSL; a whiteness
//! or blackness above 100% is refused, and where the two sum to 100% or more
//! the colour is the grey of their ratio. Reading computes the colour exactly
//! and rounds each channel half up; writing rounds to whole degrees and
//! percents.
use vstd::prelude::*;

use crate::color::{Color, ColorError};
use crate::hsl::{
    hue_exec, hue_of, hue_shape, hue_shape_exec, hue_share, max3, max3_exec, min3, min3_exec,
    number_text, push_number, rounded_channel, rounded_exec, sector, sector_exec,
};

verus! {

/// The grey channel of whiteness `w` and blackness `b` that sum to 100 or
/// more: `255 * w / (w + b)`, rounded half up.
pub open spec fn grey_channel(w: int, b: int) -> int {
    (510 * w + (w + b)) / (2 * (w + b))
}

/// The colour of hue `h` in [0, 360), whiteness `w` and blackness `b` in
/// [0, 100]: the pure hue scaled by `1 - w - b`, plus `w`; computed over
/// 600000.
#[verifier::opaque]
pub open spec fn hwb_to_rgb(h: int, w: int, b: int) -> Color {
    if w + b >= 100 {
        let g = grey_channel(w, b) as u8;
        Color { red: g, green: g, blue: g, alpha: 255 }
    } else {
        let (r1, g1, b1) = sector(h, 60, hue_share(h));
        Color {
            red: rounded_channel((r1 * (100 - w - b) + 60 * w) * 100) as u8,
            green: rounded_channel((g1 * (100 - w - b) + 60 * w) * 100) as u8,
            blue: rounded_channel((b1 * (100 - w - b) + 60 * w) * 100) as u8,
            alpha: 255,
        }
    }
}

pub open spec fn hwb_range_message() -> Seq<char> {
    "Whiteness and blackness must lie between 0% and 100%"@
}

/// The hue, whiteness and blackness written in `s`, if it has the shape of
/// the HWB notation.
pub open spec fn hwb_shape(s: Seq<char>) -> Option<(int, int, int)> {
    hue_shape(s, 'h', 'w', 'b')
}

/// What reading `s` in the HWB notation gives: the colour, or the message of
/// the error.
pub open spec fn hwb_result(s: Seq<char>) -> Result<Color, Seq<char>> {
    match hwb_shape(s) {
        None => Err("Invalid hwb color"@),
        Some((h, w, b)) => if w > 100 || b > 100 {
            Err(hwb_range_message())
        } else {
            Ok(hwb_to_rgb(h % 360, w, b))
        },
    }
}

fn hue_channel_exec(x: u64, w: u64, b: u64) -> (r: u8)
    requires
        x <= 60,
        w + b < 100,
    ensures
        r as int == rounded_channel((x * (100 - w - b) + 60 * w) * 100),
{
    assert(x * (100 - w - b) + 60 * w <= 6000) by (nonlinear_arith)
        requires
            x <= 60,
            w + b < 100,
    ;
    rounded_exec((x * (100 - w - b) + 60 * w) * 100)
}

fn hwb_to_rgb_exec(h: u64, w: u64, b: u64) -> (r: Color)
    requires
        h < 360,
        w <= 100,
        b <= 100,
    ensures
        r == hwb_to_rgb(h as int, w as int, b as int),
{
    proof {
        reveal(hwb_to_rgb);
    }
    if w + b >= 100 {
        assert(grey_channel(w as int, b as int) <= 255) by (nonlinear_arith)
            requires
                w + b >= 100,
        ;
        let g = ((510 * w + (w + b)) / (2 * (w + b))) as u8;
        Color::rgb(g, g, g)
    } else {
        let f = h % 120;
        let share = 60 - if f >= 60 { f - 60 } else { 60 - f };
        let (r1, g1, b1) = sector_exec(h, 60, share);
        Color::rgb(hue_channel_exec(r1, w, b), hue_channel_exec(g1, w, b), hue_channel_exec(b1, w, b))
    }
}

/// Parses the HWB notation.
pub fn parse_hwb(input: &str) -> (r: Result<Color, ColorError>)
    ensures
        match r {
            Ok(c) => hwb_result(input@) == Ok::<Color, Seq<char>>(c),
            Err(e) => hwb_result(input@) == Err::<Color, Seq<char>>(e.message()),
        },
{
    match hue_shape_exec(input, 'h', 'w', 'b') {
        None => Err(ColorError::ParsingError(String::from_str("Invalid hwb color"))),
        Some((h, w, b)) => {
            if w > 100 || b > 100 {
                Err(
                    ColorError::ParsingError(
                        String::from_str("Whiteness and blackness must lie between 0% and 100%"),
                    ),
                )
            } else {
                Ok(hwb_to_rgb_exec((h % 360) as u64, w as u64, b as u64))
            }
        },
    }
}

/// The whiteness of a colour in whole percents, rounded half up.
pub open spec fn whiteness_of(c: Color) -> int {
    (200 * min3(c.red as int, c.green as int, c.blue as int) + 255) / 510
}

/// The blackness of a colour in whole percents, rounded half up.
pub open spec fn blackness_of(c: Color) -> int {
    (200 * (255 - max3(c.red as int, c.green as int, c.blue as int)) + 255) / 510
}

/// The HWB text of a colour: `hwb(h, w%, b%)`; alpha is left out.
pub open spec fn hwb_text(c: Color) -> Seq<char> {
    seq!['h', 'w', 'b', '('] + number_text(hue_of(c)) + seq![',', ' '] + number_text(
        whiteness_of(c),
    ) + seq!['%', ',', ' '] + number_text(blackness_of(c)) + seq!['%', ')']
}

/// Writes a colour in the HWB notation.
pub fn format_hwb(c: Color) -> (r: String)
    ensures
        r@ == hwb_text(c),
{
    let hue = hue_exec(c);
    let lo = min3_exec(c.red as u32, c.green as u32, c.blue as u32);
    let hi = max3_exec(c.red as u32, c.green as u32, c.blue as u32);
    let white = (200 * lo + 255) / 510;
    let black = (200 * (255 - hi) + 255) / 510;
    let mut out = String::from_str("hwb(");
    push_number(&mut out, hue);
    out.append(", ");
    push_number(&mut out, white);
    out.append("%, ");
    push_number(&mut out, black);
    out.append("%)");
    proof {
        reveal_strlit("hwb(");
        reveal_strlit(", ");
        reveal_strlit("%, ");
        reveal_strlit("%)");
    }
    assert(out@ =~= hwb_text(c));
    out
}

/// A text in the HWB notation whose whiteness or blackness lies above 100% is
/// refused with the range message; it is never clamped.
pub proof fn lemma_hwb_range_rejection(s: Seq<char>, h: int, w: int, b: int)
    requires
        hwb_shape(s) == Some((h, w, b)),
        w > 100 || b > 100,
    ensures
        hwb_result(s) == Err::<Color, Seq<char>>(hwb_range_message()),
{
}

proof fn lemma_hwb_reads(s: Seq<char>, h: int, w: int, b: int)
    requires
        hwb_shape(s) == Some((h, w, b)),
        w <= 100,
        b <= 100,
    ensures
        hwb_result(s) == Ok::<Color, Seq<char>>(hwb_to_rgb(h % 360, w, b)),
{
}

/// Hue wraps modulo 360 in the HWB notation too: two texts that differ only
/// by 360 degrees of hue read as the same colour.
pub proof fn lemma_hwb_hue_wraps(s: Seq<char>, t: Seq<char>, h: int, w: int, b: int)
    requires
        hwb_shape(s) == Some((h, w, b)),
        hwb_shape(t) == Some((h + 360, w, b)),
        w <= 100,
        b <= 100,
    ensures
        hwb_result(s) == hwb_result(t),
        hwb_result(t) == Ok::<Color, Seq<char>>(hwb_to_rgb(h % 360, w, b)),
{
    lemma_hwb_reads(s, h, w, b);
    lemma_hwb_reads(t, h + 360, w, b);
    assert((h + 360) % 360 == h % 360);
}

} // verus!
