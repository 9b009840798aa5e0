//! The HSL notation `hsl(h, s%, l%)`: hue in whole degrees, saturation and
//! lightness in whole percents. Every hue, whatever its number of digits,
//! wraps modulo 360; a saturation or lightness above 100% is refused. Reading
//! computes the colour exactly and rounds each channel half up; writing
//! rounds to whole degrees and percents. The hue grammar and the hue helpers
//! here serve the HSV and HWB notations too.
use vstd::prelude::*;

use crate::color::{Color, ColorError};
use crate::rgb::{
    decimal_at, decimal_exec, number_at, number_exec, skip_white, skip_white_exec, token_at,
    token_exec,
};
use vstd::arithmetic::div_mod::{lemma_add_mod_noop, lemma_mul_mod_noop_left};

verus! {

/// A number that may follow white space at `i`.
pub open spec fn number_field_at(s: Seq<char>, i: int) -> Option<(int, int)> {
    number_at(s, skip_white(s, i))
}

/// The index of the first character at or after `i` that is no decimal
/// digit.
pub open spec fn digit_run_end(s: Seq<char>, i: int) -> int
    decreases s.len() - i,
{
    if 0 <= i < s.len() && decimal_at(s, i) is Some {
        digit_run_end(s, i + 1)
    } else {
        i
    }
}

/// The value of the decimal digits from `i` up to `j`.
pub open spec fn digits_value(s: Seq<char>, i: int, j: int) -> int
    decreases j - i,
{
    if j <= i {
        0
    } else {
        match decimal_at(s, j - 1) {
            Some(d) => digits_value(s, i, j - 1) * 10 + d,
            None => 0,
        }
    }
}

/// A hue at `i`: one or more decimal digits, of any number, and the index
/// after them.
pub open spec fn hue_at(s: Seq<char>, i: int) -> Option<(int, int)> {
    let j = digit_run_end(s, i);
    if j > i {
        Some((digits_value(s, i, j), j))
    } else {
        None
    }
}

proof fn lemma_mod_step(x: int, d: int)
    ensures
        ((x % 360) * 10 + d) % 360 == (x * 10 + d) % 360,
{
    lemma_mul_mod_noop_left(x, 10, 360);
    lemma_add_mod_noop((x % 360) * 10, d, 360);
    lemma_add_mod_noop(x * 10, d, 360);
}

/// Reads a hue at `i`, reduced modulo 360 digit by digit.
fn hue_exec_at(s: &str, n: usize, i: usize) -> (r: Option<(u16, usize)>)
    requires
        n == s@.len(),
        i <= n,
    ensures
        match r {
            Some((h, j)) => hue_at(s@, i as int) is Some && hue_at(s@, i as int).unwrap().0 % 360
                == h as int && hue_at(s@, i as int).unwrap().1 == j as int && h < 360 && j <= n,
            None => hue_at(s@, i as int) is None,
        },
{
    let mut k = i;
    let mut acc: u16 = 0;
    loop
        invariant
            i <= k <= n,
            n == s@.len(),
            acc < 360,
            acc as int == digits_value(s@, i as int, k as int) % 360,
            digit_run_end(s@, i as int) == digit_run_end(s@, k as int),
        ensures
            i <= k <= n,
            acc < 360,
            acc as int == digits_value(s@, i as int, k as int) % 360,
            digit_run_end(s@, i as int) == k,
        decreases n - k,
    {
        match decimal_exec(s, n, k) {
            None => {
                assert(digit_run_end(s@, k as int) == k);
                break;
            },
            Some(d) => {
                proof {
                    lemma_mod_step(digits_value(s@, i as int, k as int), d as int);
                }
                acc = (acc * 10 + d as u16) % 360;
                k = k + 1;
            },
        }
    }
    if k > i {
        Some((acc, k))
    } else {
        None
    }
}

/// The three numbers written in `s`, if it has the shape `xyz(h, a%, b%)` of
/// the hue-based notations, where `x`, `y`, `z` are the notation's letters. The
/// hue may have any number of digits; the percents have at most three. The
/// values are not yet checked.
#[verifier::opaque]
pub open spec fn hue_shape(s: Seq<char>, x: char, y: char, z: char) -> Option<(int, int, int)> {
    let i = skip_white(s, 0);
    if i + 3 <= s.len() && s[i] == x && s[i + 1] == y && s[i + 2] == z {
        match token_at(s, i + 3, '(') {
            None => None,
            Some(i1) => match hue_at(s, skip_white(s, i1)) {
                None => None,
                Some((h, i2)) => match token_at(s, i2, ',') {
                    None => None,
                    Some(i3) => match number_field_at(s, i3) {
                        None => None,
                        Some((sat, i4)) => match token_at(s, i4, '%') {
                            None => None,
                            Some(i5) => match token_at(s, i5, ',') {
                                None => None,
                                Some(i6) => match number_field_at(s, i6) {
                                    None => None,
                                    Some((l, i7)) => match token_at(s, i7, '%') {
                                        None => None,
                                        Some(i8) => match token_at(s, i8, ')') {
                                            None => None,
                                            Some(i9) => if skip_white(s, i9) == s.len() {
                                                Some((h, sat, l))
                                            } else {
                                                None
                                            },
                                        },
                                    },
                                },
                            },
                        },
                    },
                },
            },
        }
    } else {
        None
    }
}

/// The hue, saturation and lightness written in `s`, if it has the shape of
/// the HSL notation.
pub open spec fn hsl_shape(s: Seq<char>) -> Option<(int, int, int)> {
    hue_shape(s, 'h', 's', 'l')
}

/// The red, green and blue parts of a hue in [0, 360) of its sixth of the
/// colour wheel: `big` on the leading channel, `small` on the one the hue
/// moves toward, nothing on the third.
pub open spec fn sector(h: int, big: int, small: int) -> (int, int, int) {
    if h < 60 {
        (big, small, 0)
    } else if h < 120 {
        (small, big, 0)
    } else if h < 180 {
        (0, big, small)
    } else if h < 240 {
        (0, small, big)
    } else if h < 300 {
        (small, 0, big)
    } else {
        (big, 0, small)
    }
}

pub(crate) fn sector_exec(h: u64, big: u64, small: u64) -> (r: (u64, u64, u64))
    ensures
        (r.0 as int, r.1 as int, r.2 as int) == sector(h as int, big as int, small as int),
{
    if h < 60 {
        (big, small, 0)
    } else if h < 120 {
        (small, big, 0)
    } else if h < 180 {
        (0, big, small)
    } else if h < 240 {
        (0, small, big)
    } else if h < 300 {
        (small, 0, big)
    } else {
        (big, 0, small)
    }
}

/// The share of the secondary channel at hue `h`, over 60.
pub open spec fn hue_share(h: int) -> int {
    60 - if h % 120 >= 60 { h % 120 - 60 } else { 60 - h % 120 }
}

/// A channel from its exact value over 600000, rounded half up.
pub open spec fn rounded_channel(v: int) -> int {
    (v * 510 + 600000) / 1200000
}

/// The chroma, over 10000.
pub open spec fn chroma(s: int, l: int) -> int {
    (100 - if 2 * l >= 100 { 2 * l - 100 } else { 100 - 2 * l }) * s
}

/// The colour of hue `h` in [0, 360), saturation `s` and lightness `l` in
/// [0, 100], after the standard HSL formulas, computed over 600000.
#[verifier::opaque]
pub open spec fn hsl_to_rgb(h: int, s: int, l: int) -> Color {
    let c = chroma(s, l);
    let f = h % 120;
    let big = c * 60;
    let small = c * (60 - if f >= 60 { f - 60 } else { 60 - f });
    let m = l * 6000 - c * 30;
    let (r1, g1, b1) = sector(h, big, small);
    Color {
        red: rounded_channel(r1 + m) as u8,
        green: rounded_channel(g1 + m) as u8,
        blue: rounded_channel(b1 + m) as u8,
        alpha: 255,
    }
}

pub open spec fn hsl_range_message() -> Seq<char> {
    "Saturation and lightness must lie between 0% and 100%"@
}

/// What reading `s` in the HSL notation gives: the colour, or the message of
/// the error.
pub open spec fn hsl_result(s: Seq<char>) -> Result<Color, Seq<char>> {
    match hsl_shape(s) {
        None => Err("Invalid hsl color"@),
        Some((h, sat, l)) => if sat > 100 || l > 100 {
            Err(hsl_range_message())
        } else {
            Ok(hsl_to_rgb(h % 360, sat, l))
        },
    }
}

proof fn lemma_hsl_bounds(s: int, l: int, f: int)
    requires
        0 <= s <= 100,
        0 <= l <= 100,
        0 <= f < 120,
    ensures
        0 <= chroma(s, l) <= 10000,
        0 <= l * 6000 - chroma(s, l) * 30,
        chroma(s, l) * 30 + l * 6000 <= 600000,
        0 <= chroma(s, l) * (60 - if f >= 60 { f - 60 } else { 60 - f }) <= chroma(s, l) * 60,
{
    let d = 100 - if 2 * l >= 100 { 2 * l - 100 } else { 100 - 2 * l };
    assert(0 <= d * s <= d * 100) by (nonlinear_arith)
        requires
            0 <= d <= 100,
            0 <= s <= 100,
    ;
    assert(d * 100 <= 10000) by (nonlinear_arith)
        requires
            d <= 100,
    ;
    let c = d * s;
    let g = 60 - if f >= 60 { f - 60 } else { 60 - f };
    assert(0 <= c * g <= c * 60) by (nonlinear_arith)
        requires
            0 <= c,
            0 <= g <= 60,
    ;
}

pub(crate) fn rounded_exec(v: u64) -> (r: u8)
    requires
        v <= 600000,
    ensures
        r as int == rounded_channel(v as int),
{
    assert(rounded_channel(v as int) <= 255) by (nonlinear_arith)
        requires
            v <= 600000,
    ;
    ((v * 510 + 600000) / 1200000) as u8
}

fn hsl_to_rgb_exec(h: u64, s: u64, l: u64) -> (r: Color)
    requires
        h < 360,
        s <= 100,
        l <= 100,
    ensures
        r == hsl_to_rgb(h as int, s as int, l as int),
{
    proof {
        lemma_hsl_bounds(s as int, l as int, h as int % 120);
        reveal(hsl_to_rgb);
    }
    let c = (100 - if 2 * l >= 100 { 2 * l - 100 } else { 100 - 2 * l }) * s;
    let f = h % 120;
    let big = c * 60;
    let small = c * (60 - if f >= 60 { f - 60 } else { 60 - f });
    let m = l * 6000 - c * 30;
    let (r1, g1, b1) = sector_exec(h, big, small);
    Color::rgb(rounded_exec(r1 + m), rounded_exec(g1 + m), rounded_exec(b1 + m))
}

fn number_field_exec(s: &str, n: usize, i: usize) -> (r: Option<(u16, usize)>)
    requires
        n == s@.len(),
        i <= n,
    ensures
        match r {
            Some((v, j)) => number_field_at(s@, i as int) == Some((v as int, j as int)) && j <= n
                && v < 1000,
            None => number_field_at(s@, i as int) is None,
        },
{
    number_exec(s, n, skip_white_exec(s, n, i))
}

pub(crate) fn hue_shape_exec(s: &str, x: char, y: char, z: char) -> (r: Option<(u16, u16, u16)>)
    ensures
        match r {
            Some((h, a, b)) => hue_shape(s@, x, y, z) is Some && hue_shape(s@, x, y, z).unwrap().0
                % 360 == h as int && hue_shape(s@, x, y, z).unwrap().1 == a as int && hue_shape(
                s@,
                x,
                y,
                z,
            ).unwrap().2 == b as int && h < 360 && a < 1000 && b < 1000,
            None => hue_shape(s@, x, y, z) is None,
        },
{
    proof {
        reveal(hue_shape);
    }
    let n = s.unicode_len();
    let i = skip_white_exec(s, n, 0);
    if n - i >= 3 && s.get_char(i) == x && s.get_char(i + 1) == y && s.get_char(i + 2) == z {
        if let Some(i1) = token_exec(s, n, i + 3, '(') {
            if let Some((h, i2)) = hue_exec_at(s, n, skip_white_exec(s, n, i1)) {
                if let Some(i3) = token_exec(s, n, i2, ',') {
                    if let Some((sat, i4)) = number_field_exec(s, n, i3) {
                        if let Some(i5) = token_exec(s, n, i4, '%') {
                            if let Some(i6) = token_exec(s, n, i5, ',') {
                                if let Some((l, i7)) = number_field_exec(s, n, i6) {
                                    if let Some(i8) = token_exec(s, n, i7, '%') {
                                        if let Some(i9) = token_exec(s, n, i8, ')') {
                                            if skip_white_exec(s, n, i9) == n {
                                                return Some((h, sat, l));
                                            }
                                        }
                                    }
                                }
                            }
                        }
                    }
                }
            }
        }
    }
    None
}

/// Parses the HSL notation.
pub fn parse_hsl(input: &str) -> (r: Result<Color, ColorError>)
    ensures
        match r {
            Ok(c) => hsl_result(input@) == Ok::<Color, Seq<char>>(c),
            Err(e) => hsl_result(input@) == Err::<Color, Seq<char>>(e.message()),
        },
{
    match hue_shape_exec(input, 'h', 's', 'l') {
        None => Err(ColorError::ParsingError(String::from_str("Invalid hsl color"))),
        Some((h, sat, l)) => {
            if sat > 100 || l > 100 {
                Err(
                    ColorError::ParsingError(
                        String::from_str("Saturation and lightness must lie between 0% and 100%"),
                    ),
                )
            } else {
                Ok(hsl_to_rgb_exec((h % 360) as u64, sat as u64, l as u64))
            }
        },
    }
}

/// A text in the HSL notation whose saturation or lightness lies above 100%
/// is refused with the range message; it is never clamped.
pub proof fn lemma_hsl_range_rejection(s: Seq<char>, h: int, sat: int, l: int)
    requires
        hsl_shape(s) == Some((h, sat, l)),
        sat > 100 || l > 100,
    ensures
        hsl_result(s) == Err::<Color, Seq<char>>(hsl_range_message()),
{
}

proof fn lemma_hsl_reads(s: Seq<char>, h: int, sat: int, l: int)
    requires
        hsl_shape(s) == Some((h, sat, l)),
        sat <= 100,
        l <= 100,
    ensures
        hsl_result(s) == Ok::<Color, Seq<char>>(hsl_to_rgb(h % 360, sat, l)),
{
}

/// Hue wraps modulo 360: two texts in the HSL notation that differ only by
/// 360 degrees of hue read as the same colour, and a hue of 360 or more reads
/// as its remainder.
pub proof fn lemma_hsl_hue_wraps(s: Seq<char>, t: Seq<char>, h: int, sat: int, l: int)
    requires
        hsl_shape(s) == Some((h, sat, l)),
        hsl_shape(t) == Some((h + 360, sat, l)),
        sat <= 100,
        l <= 100,
    ensures
        hsl_result(s) == hsl_result(t),
        hsl_result(t) == Ok::<Color, Seq<char>>(hsl_to_rgb(h % 360, sat, l)),
{
    lemma_hsl_reads(s, h, sat, l);
    lemma_hsl_reads(t, h + 360, sat, l);
    assert((h + 360) % 360 == h % 360);
}

pub open spec fn max3(a: int, b: int, c: int) -> int {
    if a >= b && a >= c {
        a
    } else if b >= c {
        b
    } else {
        c
    }
}

pub open spec fn min3(a: int, b: int, c: int) -> int {
    if a <= b && a <= c {
        a
    } else if b <= c {
        b
    } else {
        c
    }
}

/// The lightness of a colour in whole percents, rounded half up.
pub open spec fn lightness_of(c: Color) -> int {
    let hi = max3(c.red as int, c.green as int, c.blue as int);
    let lo = min3(c.red as int, c.green as int, c.blue as int);
    (200 * (hi + lo) + 510) / 1020
}

/// The saturation of a colour in whole percents, rounded half up; 0 for a
/// grey.
pub open spec fn saturation_of(c: Color) -> int {
    let hi = max3(c.red as int, c.green as int, c.blue as int);
    let lo = min3(c.red as int, c.green as int, c.blue as int);
    let d = hi - lo;
    let den = 255 - if hi + lo >= 255 { hi + lo - 255 } else { 255 - hi - lo };
    if d == 0 {
        0
    } else {
        (200 * d + den) / (2 * den)
    }
}

/// The hue of a colour in whole degrees in [0, 360), rounded half up; 0 for
/// a grey.
pub open spec fn hue_of(c: Color) -> int {
    let r = c.red as int;
    let g = c.green as int;
    let b = c.blue as int;
    let hi = max3(r, g, b);
    let d = hi - min3(r, g, b);
    let num = if hi == r {
        if g >= b { 60 * (g - b) } else { 60 * (g - b) + 360 * d }
    } else if hi == g {
        60 * (b - r) + 120 * d
    } else {
        60 * (r - g) + 240 * d
    };
    if d == 0 {
        0
    } else {
        ((2 * num + d) / (2 * d)) % 360
    }
}

/// Whole numbers below 1000 in decimal, without leading zeros.
pub open spec fn number_text(v: int) -> Seq<char> {
    let digits = seq!['0', '1', '2', '3', '4', '5', '6', '7', '8', '9'];
    if v < 10 {
        seq![digits[v]]
    } else if v < 100 {
        seq![digits[v / 10], digits[v % 10]]
    } else {
        seq![digits[v / 100], digits[(v / 10) % 10], digits[v % 10]]
    }
}

/// The HSL text of a colour: `hsl(h, s%, l%)`; alpha is left out.
pub open spec fn hsl_text(c: Color) -> Seq<char> {
    seq!['h', 's', 'l', '('] + number_text(hue_of(c)) + seq![',', ' '] + number_text(
        saturation_of(c),
    ) + seq!['%', ',', ' '] + number_text(lightness_of(c)) + seq!['%', ')']
}

pub(crate) fn push_number(out: &mut String, v: u32)
    requires
        v < 1000,
    ensures
        final(out)@ == old(out)@ + number_text(v as int),
{
    let digits = "0123456789";
    proof {
        reveal_strlit("0123456789");
    }
    if v >= 100 {
        let d = (v / 100) as usize;
        out.append(digits.substring_char(d, d + 1));
    }
    if v >= 10 {
        let d = ((v / 10) % 10) as usize;
        out.append(digits.substring_char(d, d + 1));
    }
    let d = (v % 10) as usize;
    out.append(digits.substring_char(d, d + 1));
    assert(final(out)@ =~= old(out)@ + number_text(v as int));
}

pub(crate) fn max3_exec(a: u32, b: u32, c: u32) -> (r: u32)
    ensures
        r == max3(a as int, b as int, c as int),
{
    if a >= b && a >= c {
        a
    } else if b >= c {
        b
    } else {
        c
    }
}

pub(crate) fn min3_exec(a: u32, b: u32, c: u32) -> (r: u32)
    ensures
        r == min3(a as int, b as int, c as int),
{
    if a <= b && a <= c {
        a
    } else if b <= c {
        b
    } else {
        c
    }
}

fn lightness_exec(c: Color) -> (r: u32)
    ensures
        r == lightness_of(c),
        r <= 100,
{
    let hi = max3_exec(c.red as u32, c.green as u32, c.blue as u32);
    let lo = min3_exec(c.red as u32, c.green as u32, c.blue as u32);
    (200 * (hi + lo) + 510) / 1020
}

fn saturation_exec(c: Color) -> (r: u32)
    ensures
        r == saturation_of(c),
        r <= 100,
{
    let hi = max3_exec(c.red as u32, c.green as u32, c.blue as u32);
    let lo = min3_exec(c.red as u32, c.green as u32, c.blue as u32);
    let d = hi - lo;
    let den = 255 - if hi + lo >= 255 { hi + lo - 255 } else { 255 - hi - lo };
    if d == 0 {
        0
    } else {
        assert(d <= den);
        assert((200 * d + den) / (2 * den) <= 100) by (nonlinear_arith)
            requires
                0 < d <= den,
        ;
        (200 * d + den) / (2 * den)
    }
}

pub(crate) fn hue_exec(c: Color) -> (r: u32)
    ensures
        r == hue_of(c),
        r < 360,
{
    let r = c.red as u32;
    let g = c.green as u32;
    let b = c.blue as u32;
    let hi = max3_exec(r, g, b);
    let d = hi - min3_exec(r, g, b);
    let num = if hi == r {
        if g >= b { 60 * (g - b) } else { 60 * g + 360 * d - 60 * b }
    } else if hi == g {
        60 * b + 120 * d - 60 * r
    } else {
        60 * r + 240 * d - 60 * g
    };
    if d == 0 {
        0
    } else {
        ((2 * num + d) / (2 * d)) % 360
    }
}

/// Writes a colour in the HSL notation.
pub fn format_hsl(c: Color) -> (r: String)
    ensures
        r@ == hsl_text(c),
{
    let hue = hue_exec(c);
    let sat = saturation_exec(c);
    let light = lightness_exec(c);
    let mut out = String::from_str("hsl(");
    push_number(&mut out, hue);
    out.append(", ");
    push_number(&mut out, sat);
    out.append("%, ");
    push_number(&mut out, light);
    out.append("%)");
    proof {
        reveal_strlit("hsl(");
        reveal_strlit(", ");
        reveal_strlit("%, ");
        reveal_strlit("%)");
    }
    assert(out@ =~= hsl_text(c));
    out
}

} // verus!
