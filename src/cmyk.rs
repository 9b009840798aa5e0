//! The CMYK notation `cmyk(c%, m%, y%, k%)`: four whole percents from 0 to
//! 100. Reading computes `255 * (1 - c) * (1 - k)` and its likes exactly and
//! rounds half up; writing rounds to whole percents. Alpha is never written.
use vstd::prelude::*;

use crate::color::{Color, ColorError};
use crate::hsl::{max3, max3_exec, number_text, push_number, rounded_channel, rounded_exec};
use crate::rgb::{number_at, number_exec, skip_white, skip_white_exec, token_at, token_exec};

verus! {

/// A percent at `i`, after optional white space: the number and the index
/// after its `%`.
pub open spec fn percent_at(s: Seq<char>, i: int) -> Option<(int, int)> {
    match number_at(s, skip_white(s, i)) {
        None => None,
        Some((v, j)) => match token_at(s, j, '%') {
            None => None,
            Some(k) => Some((v, k)),
        },
    }
}

/// The four percents written in `s`, if it has the shape of the CMYK
/// notation; the values are not yet checked.
#[verifier::opaque]
pub open spec fn cmyk_shape(s: Seq<char>) -> Option<(int, int, int, int)> {
    let i = skip_white(s, 0);
    if i + 4 <= s.len() && s[i] == 'c' && s[i + 1] == 'm' && s[i + 2] == 'y' && s[i + 3] == 'k' {
        match token_at(s, i + 4, '(') {
            None => None,
            Some(i1) => match percent_at(s, i1) {
                None => None,
                Some((c, i2)) => match token_at(s, i2, ',') {
                    None => None,
                    Some(i3) => match percent_at(s, i3) {
                        None => None,
                        Some((m, i4)) => match token_at(s, i4, ',') {
                            None => None,
                            Some(i5) => match percent_at(s, i5) {
                                None => None,
                                Some((y, i6)) => match token_at(s, i6, ',') {
                                    None => None,
                                    Some(i7) => match percent_at(s, i7) {
                                        None => None,
                                        Some((k, i8)) => match token_at(s, i8, ')') {
                                            None => None,
                                            Some(i9) => if skip_white(s, i9) == s.len() {
                                                Some((c, m, y, k))
                                            } else {
                                                None
                                            },
                                        },
                                    },
                                },
                            },
                        },
                    },
                },
            },
        }
    } else {
        None
    }
}

/// A channel of ink `x` and key `k`, both in [0, 100], over 600000.
pub open spec fn ink_channel(x: int, k: int) -> int {
    rounded_channel((100 - x) * (100 - k) * 60)
}

pub open spec fn cmyk_range_message() -> Seq<char> {
    "Cyan, magenta, yellow and key must lie between 0% and 100%"@
}

/// What reading `s` in the CMYK notation gives: the colour, or the message of
/// the error.
pub open spec fn cmyk_result(s: Seq<char>) -> Result<Color, Seq<char>> {
    match cmyk_shape(s) {
        None => Err("Invalid cmyk color"@),
        Some((c, m, y, k)) => if c > 100 || m > 100 || y > 100 || k > 100 {
            Err(cmyk_range_message())
        } else {
            Ok(
                Color {
                    red: ink_channel(c, k) as u8,
                    green: ink_channel(m, k) as u8,
                    blue: ink_channel(y, k) as u8,
                    alpha: 255,
                },
            )
        },
    }
}

fn percent_exec(s: &str, n: usize, i: usize) -> (r: Option<(u16, usize)>)
    requires
        n == s@.len(),
        i <= n,
    ensures
        match r {
            Some((v, j)) => percent_at(s@, i as int) == Some((v as int, j as int)) && j <= n && v
                < 1000,
            None => percent_at(s@, i as int) is None,
        },
{
    match number_exec(s, n, skip_white_exec(s, n, i)) {
        None => None,
        Some((v, j)) => match token_exec(s, n, j, '%') {
            None => None,
            Some(k) => Some((v, k)),
        },
    }
}

fn cmyk_shape_exec(s: &str) -> (r: Option<(u16, u16, u16, u16)>)
    ensures
        match r {
            Some((c, m, y, k)) => cmyk_shape(s@) == Some((c as int, m as int, y as int, k as int)),
            None => cmyk_shape(s@) is None,
        },
{
    proof {
        reveal(cmyk_shape);
    }
    let n = s.unicode_len();
    let i = skip_white_exec(s, n, 0);
    if n - i >= 4 && s.get_char(i) == 'c' && s.get_char(i + 1) == 'm' && s.get_char(i + 2) == 'y'
        && s.get_char(i + 3) == 'k' {
        if let Some(i1) = token_exec(s, n, i + 4, '(') {
            if let Some((c, i2)) = percent_exec(s, n, i1) {
                if let Some(i3) = token_exec(s, n, i2, ',') {
                    if let Some((m, i4)) = percent_exec(s, n, i3) {
                        if let Some(i5) = token_exec(s, n, i4, ',') {
                            if let Some((y, i6)) = percent_exec(s, n, i5) {
                                if let Some(i7) = token_exec(s, n, i6, ',') {
                                    if let Some((k, i8)) = percent_exec(s, n, i7) {
                                        if let Some(i9) = token_exec(s, n, i8, ')') {
                                            if skip_white_exec(s, n, i9) == n {
                                                return Some((c, m, y, k));
                                            }
                                        }
                                    }
                                }
                            }
                        }
                    }
                }
            }
        }
    }
    None
}

fn ink_channel_exec(x: u16, k: u16) -> (r: u8)
    requires
        x <= 100,
        k <= 100,
    ensures
        r as int == ink_channel(x as int, k as int),
{
    let a = (100 - x) as u64;
    let b = (100 - k) as u64;
    assert(a * b <= 10000) by (nonlinear_arith)
        requires
            a <= 100,
            b <= 100,
    ;
    rounded_exec(a * b * 60)
}

/// Parses the CMYK notation.
pub fn parse_cmyk(input: &str) -> (r: Result<Color, ColorError>)
    ensures
        match r {
            Ok(c) => cmyk_result(input@) == Ok::<Color, Seq<char>>(c),
            Err(e) => cmyk_result(input@) == Err::<Color, Seq<char>>(e.message()),
        },
{
    match cmyk_shape_exec(input) {
        None => Err(ColorError::ParsingError(String::from_str("Invalid cmyk color"))),
        Some((c, m, y, k)) => {
            if c > 100 || m > 100 || y > 100 || k > 100 {
                Err(
                    ColorError::ParsingError(
                        String::from_str(
                            "Cyan, magenta, yellow and key must lie between 0% and 100%",
                        ),
                    ),
                )
            } else {
                Ok(Color::rgb(ink_channel_exec(c, k), ink_channel_exec(m, k), ink_channel_exec(y, k)))
            }
        },
    }
}

/// The key of a colour in whole percents, rounded half up.
pub open spec fn key_of(c: Color) -> int {
    (200 * (255 - max3(c.red as int, c.green as int, c.blue as int)) + 255) / 510
}

/// The ink of a channel `v` of a colour whose largest channel is `hi`, in
/// whole percents, rounded half up; 0 for black.
pub open spec fn ink_of(v: int, hi: int) -> int {
    if hi == 0 {
        0
    } else {
        (200 * (hi - v) + hi) / (2 * hi)
    }
}

/// The CMYK text of a colour: `cmyk(c%, m%, y%, k%)`.
pub open spec fn cmyk_text(c: Color) -> Seq<char> {
    let hi = max3(c.red as int, c.green as int, c.blue as int);
    seq!['c', 'm', 'y', 'k', '('] + number_text(ink_of(c.red as int, hi)) + seq!['%', ',', ' ']
        + number_text(ink_of(c.green as int, hi)) + seq!['%', ',', ' '] + number_text(
        ink_of(c.blue as int, hi),
    ) + seq!['%', ',', ' '] + number_text(key_of(c)) + seq!['%', ')']
}

fn ink_exec(v: u32, hi: u32) -> (r: u32)
    requires
        v <= hi <= 255,
    ensures
        r == ink_of(v as int, hi as int),
        r <= 100,
{
    if hi == 0 {
        0
    } else {
        assert((200 * (hi - v) + hi) / (2 * hi) <= 100) by (nonlinear_arith)
            requires
                v <= hi,
                0 < hi,
        ;
        (200 * (hi - v) + hi) / (2 * hi)
    }
}

/// Writes a colour in the CMYK notation.
pub fn format_cmyk(c: Color) -> (r: String)
    ensures
        r@ == cmyk_text(c),
{
    let hi = max3_exec(c.red as u32, c.green as u32, c.blue as u32);
    let key = (200 * (255 - hi) + 255) / 510;
    let mut out = String::from_str("cmyk(");
    push_number(&mut out, ink_exec(c.red as u32, hi));
    out.append("%, ");
    push_number(&mut out, ink_exec(c.green as u32, hi));
    out.append("%, ");
    push_number(&mut out, ink_exec(c.blue as u32, hi));
    out.append("%, ");
    push_number(&mut out, key);
    out.append("%)");
    proof {
        reveal_strlit("cmyk(");
        reveal_strlit("%, ");
        reveal_strlit("%)");
    }
    assert(out@ =~= cmyk_text(c));
    out
}

/// A text in the CMYK notation with a percent above 100 is refused with the
/// range message; it is never clamped.
pub proof fn lemma_cmyk_range_rejection(s: Seq<char>, c: int, m: int, y: int, k: int)
    requires
        cmyk_shape(s) == Some((c, m, y, k)),
        c > 100 || m > 100 || y > 100 || k > 100,
    ensures
        cmyk_result(s) == Err::<Color, Seq<char>>(cmyk_range_message()),
{
}

} // verus!
