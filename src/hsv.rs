//! The HSV notation `hsv(h, s%, v%)`: hue in whole degrees, saturation and
//! value in whole percents. Hue wraps modulo 360 as in HSL; a saturation or
//! value above 100% is refused. Reading computes the colour exactly and
//! rounds each channel half up; writing rounds to whole degrees and percents.
use vstd::prelude::*;

use crate::color::{Color, ColorError};
use crate::hsl::{
    hue_exec, hue_of, hue_shape, hue_shape_exec, hue_share, max3, max3_exec, min3, min3_exec,
    number_text, push_number, rounded_channel, rounded_exec, sector, sector_exec,
};

verus! {

/// The colour of hue `h` in [0, 360), saturation `s` and value `v` in
/// [0, 100], after the standard HSV formulas, computed over 600000.
#[verifier::opaque]
pub open spec fn hsv_to_rgb(h: int, s: int, v: int) -> Color {
    let c = v * s;
    let (r1, g1, b1) = sector(h, c * 60, c * hue_share(h));
    let m = v * 6000 - c * 60;
    Color {
        red: rounded_channel(r1 + m) as u8,
        green: rounded_channel(g1 + m) as u8,
        blue: rounded_channel(b1 + m) as u8,
        alpha: 255,
    }
}

pub open spec fn hsv_range_message() -> Seq<char> {
    "Saturation and value must lie between 0% and 100%"@
}

/// The hue, saturation and value written in `s`, if it has the shape of the
/// HSV notation.
pub open spec fn hsv_shape(s: Seq<char>) -> Option<(int, int, int)> {
    hue_shape(s, 'h', 's', 'v')
}

/// What reading `s` in the HSV notation gives: the colour, or the message of
/// the error.
pub open spec fn hsv_result(s: Seq<char>) -> Result<Color, Seq<char>> {
    match hsv_shape(s) {
        None => Err("Invalid hsv color"@),
        Some((h, sat, v)) => if sat > 100 || v > 100 {
            Err(hsv_range_message())
        } else {
            Ok(hsv_to_rgb(h % 360, sat, v))
        },
    }
}

fn hsv_to_rgb_exec(h: u64, s: u64, v: u64) -> (r: Color)
    requires
        h < 360,
        s <= 100,
        v <= 100,
    ensures
        r == hsv_to_rgb(h as int, s as int, v as int),
{
    proof {
        reveal(hsv_to_rgb);
    }
    assert(v * s <= 10000) by (nonlinear_arith)
        requires
            v <= 100,
            s <= 100,
    ;
    let c = v * s;
    let f = h % 120;
    let share = 60 - if f >= 60 { f - 60 } else { 60 - f };
    assert(0 <= c <= v * 100 && c * share <= c * 60) by (nonlinear_arith)
        requires
            c == v * s,
            s <= 100,
            share <= 60,
    ;
    let (r1, g1, b1) = sector_exec(h, c * 60, c * share);
    let m = v * 6000 - c * 60;
    Color::rgb(rounded_exec(r1 + m), rounded_exec(g1 + m), rounded_exec(b1 + m))
}

/// Parses the HSV notation.
pub fn parse_hsv(input: &str) -> (r: Result<Color, ColorError>)
    ensures
        match r {
            Ok(c) => hsv_result(input@) == Ok::<Color, Seq<char>>(c),
            Err(e) => hsv_result(input@) == Err::<Color, Seq<char>>(e.message()),
        },
{
    match hue_shape_exec(input, 'h', 's', 'v') {
        None => Err(ColorError::ParsingError(String::from_str("Invalid hsv color"))),
        Some((h, sat, v)) => {
            if sat > 100 || v > 100 {
                Err(
                    ColorError::ParsingError(
                        String::from_str("Saturation and value must lie between 0% and 100%"),
                    ),
                )
            } else {
                Ok(hsv_to_rgb_exec((h % 360) as u64, sat as u64, v as u64))
            }
        },
    }
}

/// The value of a colour in whole percents, rounded half up.
pub open spec fn value_of(c: Color) -> int {
    (200 * max3(c.red as int, c.green as int, c.blue as int) + 255) / 510
}

/// The HSV saturation of a colour in whole percents, rounded half up; 0 for
/// black.
pub open spec fn hsv_saturation_of(c: Color) -> int {
    let hi = max3(c.red as int, c.green as int, c.blue as int);
    let d = hi - min3(c.red as int, c.green as int, c.blue as int);
    if hi == 0 {
        0
    } else {
        (200 * d + hi) / (2 * hi)
    }
}

/// The HSV text of a colour: `hsv(h, s%, v%)`; alpha is left out.
pub open spec fn hsv_text(c: Color) -> Seq<char> {
    seq!['h', 's', 'v', '('] + number_text(hue_of(c)) + seq![',', ' '] + number_text(
        hsv_saturation_of(c),
    ) + seq!['%', ',', ' '] + number_text(value_of(c)) + seq!['%', ')']
}

fn value_exec(c: Color) -> (r: u32)
    ensures
        r == value_of(c),
        r <= 100,
{
    let hi = max3_exec(c.red as u32, c.green as u32, c.blue as u32);
    (200 * hi + 255) / 510
}

fn hsv_saturation_exec(c: Color) -> (r: u32)
    ensures
        r == hsv_saturation_of(c),
        r <= 100,
{
    let hi = max3_exec(c.red as u32, c.green as u32, c.blue as u32);
    let lo = min3_exec(c.red as u32, c.green as u32, c.blue as u32);
    let d = hi - lo;
    if hi == 0 {
        0
    } else {
        assert((200 * d + hi) / (2 * hi) <= 100) by (nonlinear_arith)
            requires
                0 <= d <= hi,
                0 < hi,
        ;
        (200 * d + hi) / (2 * hi)
    }
}

/// Writes a colour in the HSV notation.
pub fn format_hsv(c: Color) -> (r: String)
    ensures
        r@ == hsv_text(c),
{
    let hue = hue_exec(c);
    let sat = hsv_saturation_exec(c);
    let value = value_exec(c);
    let mut out = String::from_str("hsv(");
    push_number(&mut out, hue);
    out.append(", ");
    push_number(&mut out, sat);
    out.append("%, ");
    push_number(&mut out, value);
    out.append("%)");
    proof {
        reveal_strlit("hsv(");
        reveal_strlit(", ");
        reveal_strlit("%, ");
        reveal_strlit("%)");
    }
    assert(out@ =~= hsv_text(c));
    out
}

/// A text in the HSV notation whose saturation or value lies above 100% is
/// refused with the range message; it is never clamped.
pub proof fn lemma_hsv_range_rejection(s: Seq<char>, h: int, sat: int, v: int)
    requires
        hsv_shape(s) == Some((h, sat, v)),
        sat > 100 || v > 100,
    ensures
        hsv_result(s) == Err::<Color, Seq<char>>(hsv_range_message()),
{
}

proof fn lemma_hsv_reads(s: Seq<char>, h: int, sat: int, v: int)
    requires
        hsv_shape(s) == Some((h, sat, v)),
        sat <= 100,
        v <= 100,
    ensures
        hsv_result(s) == Ok::<Color, Seq<char>>(hsv_to_rgb(h % 360, sat, v)),
{
}

/// Hue wraps modulo 360 in the HSV notation too: two texts that differ only
/// by 360 degrees of hue read as the same colour.
pub proof fn lemma_hsv_hue_wraps(s: Seq<char>, t: Seq<char>, h: int, sat: int, v: int)
    requires
        hsv_shape(s) == Some((h, sat, v)),
        hsv_shape(t) == Some((h + 360, sat, v)),
        sat <= 100,
        v <= 100,
    ensures
        hsv_result(s) == hsv_result(t),
        hsv_result(t) == Ok::<Color, Seq<char>>(hsv_to_rgb(h % 360, sat, v)),
{
    lemma_hsv_reads(s, h, sat, v);
    lemma_hsv_reads(t, h + 360, sat, v);
    assert((h + 360) % 360 == h % 360);
}

} // verus!
