//! The functional RGB notation: `rgb(r, g, b)`, three decimal channels from 0
//! to 255, and, where alpha is shown, `rgba(a, r, g, b)` or `rgba(r, g, b, a)`
//! as the alpha position says, with alpha a decimal from 0 to 1 of at most
//! three places. White space may stand around every token. `rgb(...)` reads
//! as an opaque colour under every alpha position; `rgba(...)` is read only
//! where alpha is shown.
use vstd::prelude::*;

use crate::color::{AlphaPosition, Color, ColorError};
use crate::text::{is_white_space, is_white_space_spec};

verus! {

/// The index of the first character at or after `i` that is not white space.
pub open spec fn skip_white(s: Seq<char>, i: int) -> int
    decreases s.len() - i,
{
    if 0 <= i < s.len() && is_white_space_spec(s[i]) {
        skip_white(s, i + 1)
    } else {
        i
    }
}

/// The decimal digit at `i`, if there is one.
pub open spec fn decimal_at(s: Seq<char>, i: int) -> Option<int> {
    if 0 <= i < s.len() && '0' <= s[i] && s[i] <= '9' {
        Some(s[i] as int - '0' as int)
    } else {
        None
    }
}

/// A number of one to three digits at `i`, and the index after it. A fourth
/// digit makes it no number.
pub open spec fn number_at(s: Seq<char>, i: int) -> Option<(int, int)> {
    match decimal_at(s, i) {
        None => None,
        Some(a) => match decimal_at(s, i + 1) {
            None => Some((a, i + 1)),
            Some(b) => match decimal_at(s, i + 2) {
                None => Some((a * 10 + b, i + 2)),
                Some(c) => if decimal_at(s, i + 3) is Some {
                    None
                } else {
                    Some((a * 100 + b * 10 + c, i + 3))
                },
            },
        },
    }
}

/// A channel at `i`: a number of at most 255.
pub open spec fn channel_at(s: Seq<char>, i: int) -> Option<(u8, int)> {
    match number_at(s, i) {
        Some((v, j)) => if v <= 255 {
            Some((v as u8, j))
        } else {
            None
        },
        None => None,
    }
}

/// The index after the character `c`, which may follow white space at `i`.
pub open spec fn token_at(s: Seq<char>, i: int, c: char) -> Option<int> {
    let j = skip_white(s, i);
    if 0 <= j < s.len() && s[j] == c {
        Some(j + 1)
    } else {
        None
    }
}

/// A channel that may follow white space at `i`.
pub open spec fn field_at(s: Seq<char>, i: int) -> Option<(u8, int)> {
    channel_at(s, skip_white(s, i))
}

/// The colour that `s` denotes in the RGB notation, if it is one.
pub open spec fn rgb_color(s: Seq<char>) -> Option<Color> {
    let i = skip_white(s, 0);
    if i + 3 <= s.len() && s[i] == 'r' && s[i + 1] == 'g' && s[i + 2] == 'b' {
        match token_at(s, i + 3, '(') {
            None => None,
            Some(i1) => match field_at(s, i1) {
                None => None,
                Some((r, i2)) => match token_at(s, i2, ',') {
                    None => None,
                    Some(i3) => match field_at(s, i3) {
                        None => None,
                        Some((g, i4)) => match token_at(s, i4, ',') {
                            None => None,
                            Some(i5) => match field_at(s, i5) {
                                None => None,
                                Some((b, i6)) => match token_at(s, i6, ')') {
                                    None => None,
                                    Some(i7) => if skip_white(s, i7) == s.len() {
                                        Some(Color { red: r, green: g, blue: b, alpha: 255 })
                                    } else {
                                        None
                                    },
                                },
                            },
                        },
                    },
                },
            },
        }
    } else {
        None
    }
}

/// Up to three decimal places at `j`, in thousandths, and the index after
/// them. A fourth place makes them no fraction.
pub open spec fn fraction_at(s: Seq<char>, j: int) -> Option<(int, int)> {
    match decimal_at(s, j) {
        None => None,
        Some(a) => match decimal_at(s, j + 1) {
            None => Some((a * 100, j + 1)),
            Some(b) => match decimal_at(s, j + 2) {
                None => Some((a * 100 + b * 10, j + 2)),
                Some(c) => if decimal_at(s, j + 3) is Some {
                    None
                } else {
                    Some((a * 100 + b * 10 + c, j + 3))
                },
            },
        },
    }
}

/// An alpha at `i`: `0` or `1`, optionally followed by `.` and one to three
/// places, at most 1 in all; its value in thousandths and the index after it.
pub open spec fn alpha_at(s: Seq<char>, i: int) -> Option<(int, int)> {
    match decimal_at(s, i) {
        None => None,
        Some(u) => if u > 1 || decimal_at(s, i + 1) is Some {
            None
        } else if 0 <= i + 1 < s.len() && s[i + 1] == '.' {
            match fraction_at(s, i + 2) {
                None => None,
                Some((f, j)) => if u * 1000 + f > 1000 {
                    None
                } else {
                    Some((u * 1000 + f, j))
                },
            }
        } else {
            Some((u * 1000, i + 1))
        },
    }
}

/// An alpha that may follow white space at `i`.
pub open spec fn alpha_field_at(s: Seq<char>, i: int) -> Option<(int, int)> {
    alpha_at(s, skip_white(s, i))
}

/// The alpha byte of a value in thousandths: `255 * t / 1000`, rounded half
/// up.
pub open spec fn alpha_byte(t: int) -> u8 {
    ((t * 510 + 1000) / 2000) as u8
}

/// The thousandths of an alpha byte: `1000 * a / 255`, rounded half up.
pub open spec fn alpha_thousandths(a: u8) -> int {
    (a * 2000 + 255) / 510
}

/// The colour of `rgba(a, r, g, b)`, alpha first.
#[verifier::opaque]
pub open spec fn rgba_leading(s: Seq<char>) -> Option<Color> {
    let i = skip_white(s, 0);
    if i + 4 <= s.len() && s[i] == 'r' && s[i + 1] == 'g' && s[i + 2] == 'b' && s[i + 3] == 'a' {
        match token_at(s, i + 4, '(') {
            None => None,
            Some(j0) => match alpha_field_at(s, j0) {
                None => None,
                Some((a, j1)) => match token_at(s, j1, ',') {
                    None => None,
                    Some(j2) => match field_at(s, j2) {
                        None => None,
                        Some((r, j3)) => match token_at(s, j3, ',') {
                            None => None,
                            Some(j4) => match field_at(s, j4) {
                                None => None,
                                Some((g, j5)) => match token_at(s, j5, ',') {
                                    None => None,
                                    Some(j6) => match field_at(s, j6) {
                                        None => None,
                                        Some((b, j7)) => match token_at(s, j7, ')') {
                                            None => None,
                                            Some(j8) => if skip_white(s, j8) == s.len() {
                                                Some(
                                                    Color { red: r, green: g, blue: b, alpha: alpha_byte(a) },
                                                )
                                            } else {
                                                None
                                            },
                                        },
                                    },
                                },
                            },
                        },
                    },
                },
            },
        }
    } else {
        None
    }
}

/// The colour of `rgba(r, g, b, a)`, alpha last.
#[verifier::opaque]
pub open spec fn rgba_trailing(s: Seq<char>) -> Option<Color> {
    let i = skip_white(s, 0);
    if i + 4 <= s.len() && s[i] == 'r' && s[i + 1] == 'g' && s[i + 2] == 'b' && s[i + 3] == 'a' {
        match token_at(s, i + 4, '(') {
            None => None,
            Some(j0) => match field_at(s, j0) {
                None => None,
                Some((r, j1)) => match token_at(s, j1, ',') {
                    None => None,
                    Some(j2) => match field_at(s, j2) {
                        None => None,
                        Some((g, j3)) => match token_at(s, j3, ',') {
                            None => None,
                            Some(j4) => match field_at(s, j4) {
                                None => None,
                                Some((b, j5)) => match token_at(s, j5, ',') {
                                    None => None,
                                    Some(j6) => match alpha_field_at(s, j6) {
                                        None => None,
                                        Some((a, j7)) => match token_at(s, j7, ')') {
                                            None => None,
                                            Some(j8) => if skip_white(s, j8) == s.len() {
                                                Some(
                                                    Color { red: r, green: g, blue: b, alpha: alpha_byte(a) },
                                                )
                                            } else {
                                                None
                                            },
                                        },
                                    },
                                },
                            },
                        },
                    },
                },
            },
        }
    } else {
        None
    }
}

/// The colour that `s` denotes in the functional RGB notation under an alpha
/// position: `rgb(...)` always, `rgba(...)` with alpha where it is shown.
pub open spec fn functional_color(s: Seq<char>, pos: AlphaPosition) -> Option<Color> {
    match rgb_color(s) {
        Some(c) => Some(c),
        None => match pos {
            AlphaPosition::Hidden => None,
            AlphaPosition::Leading => rgba_leading(s),
            AlphaPosition::Trailing => rgba_trailing(s),
        },
    }
}

pub open spec fn decimal_char(d: int) -> char {
    seq!['0', '1', '2', '3', '4', '5', '6', '7', '8', '9'][d]
}

/// The decimal digits of a channel, without leading zeros.
pub open spec fn channel_text(v: u8) -> Seq<char> {
    if v < 10 {
        seq![decimal_char(v as int)]
    } else if v < 100 {
        seq![decimal_char(v as int / 10), decimal_char(v as int % 10)]
    } else {
        seq![
            decimal_char(v as int / 100),
            decimal_char((v as int / 10) % 10),
            decimal_char(v as int % 10),
        ]
    }
}

/// The RGB text of a colour: `rgb(r, g, b)`.
pub open spec fn rgb_text(c: Color) -> Seq<char> {
    seq!['r', 'g', 'b', '('] + channel_text(c.red) + seq![',', ' '] + channel_text(c.green) + seq![
        ',',
        ' ',
    ] + channel_text(c.blue) + seq![')']
}

/// The alpha of a colour as a decimal from 0 to 1 with three places.
pub open spec fn alpha_text(a: u8) -> Seq<char> {
    let t = alpha_thousandths(a);
    seq![
        decimal_char(t / 1000),
        '.',
        decimal_char((t / 100) % 10),
        decimal_char((t / 10) % 10),
        decimal_char(t % 10),
    ]
}

/// The functional RGB text of a colour under an alpha position:
/// `rgb(r, g, b)` where alpha is hidden, else `rgba(...)` with alpha at its
/// place.
pub open spec fn functional_text(c: Color, pos: AlphaPosition) -> Seq<char> {
    let rgb = channels_text(c);
    match pos {
        AlphaPosition::Hidden => rgb_text(c),
        AlphaPosition::Leading => seq!['r', 'g', 'b', 'a', '('] + alpha_text(c.alpha) + seq![
            ',',
            ' ',
        ] + rgb + seq![')'],
        AlphaPosition::Trailing => seq!['r', 'g', 'b', 'a', '('] + rgb + seq![',', ' ']
            + alpha_text(c.alpha) + seq![')'],
    }
}

pub(crate) fn skip_white_exec(s: &str, n: usize, i: usize) -> (r: usize)
    requires
        n == s@.len(),
        i <= n,
    ensures
        r == skip_white(s@, i as int),
        i <= r <= n,
{
    let mut j = i;
    while j < n && is_white_space(s.get_char(j))
        invariant
            i <= j <= n,
            n == s@.len(),
            skip_white(s@, i as int) == skip_white(s@, j as int),
        decreases n - j,
    {
        j = j + 1;
    }
    j
}

pub(crate) fn decimal_exec(s: &str, n: usize, i: usize) -> (r: Option<u8>)
    requires
        n == s@.len(),
    ensures
        match r {
            Some(d) => decimal_at(s@, i as int) == Some(d as int) && d < 10,
            None => decimal_at(s@, i as int) is None,
        },
{
    if i < n {
        let c = s.get_char(i);
        if '0' <= c && c <= '9' {
            return Some((c as u32 - '0' as u32) as u8);
        }
    }
    None
}

pub(crate) fn number_exec(s: &str, n: usize, i: usize) -> (r: Option<(u16, usize)>)
    requires
        n == s@.len(),
        i <= n,
    ensures
        match r {
            Some((v, j)) => number_at(s@, i as int) == Some((v as int, j as int)) && j <= n && v
                < 1000,
            None => number_at(s@, i as int) is None,
        },
{
    match decimal_exec(s, n, i) {
        None => None,
        Some(a) => match decimal_exec(s, n, i + 1) {
            None => Some((a as u16, i + 1)),
            Some(b) => match decimal_exec(s, n, i + 2) {
                None => Some((a as u16 * 10 + b as u16, i + 2)),
                Some(c) => {
                    if decimal_exec(s, n, i + 3).is_some() {
                        None
                    } else {
                        Some((a as u16 * 100 + b as u16 * 10 + c as u16, i + 3))
                    }
                },
            },
        },
    }
}

fn channel_exec(s: &str, n: usize, i: usize) -> (r: Option<(u8, usize)>)
    requires
        n == s@.len(),
        i <= n,
    ensures
        match r {
            Some((v, j)) => channel_at(s@, i as int) == Some((v, j as int)) && j <= n,
            None => channel_at(s@, i as int) is None,
        },
{
    match number_exec(s, n, i) {
        Some((v, j)) => if v <= 255 {
            Some((v as u8, j))
        } else {
            None
        },
        None => None,
    }
}

pub(crate) fn token_exec(s: &str, n: usize, i: usize, c: char) -> (r: Option<usize>)
    requires
        n == s@.len(),
        i <= n,
    ensures
        match r {
            Some(j) => token_at(s@, i as int, c) == Some(j as int) && j <= n,
            None => token_at(s@, i as int, c) is None,
        },
{
    let j = skip_white_exec(s, n, i);
    if j < n && s.get_char(j) == c {
        Some(j + 1)
    } else {
        None
    }
}

fn field_exec(s: &str, n: usize, i: usize) -> (r: Option<(u8, usize)>)
    requires
        n == s@.len(),
        i <= n,
    ensures
        match r {
            Some((v, j)) => field_at(s@, i as int) == Some((v, j as int)) && j <= n,
            None => field_at(s@, i as int) is None,
        },
{
    channel_exec(s, n, skip_white_exec(s, n, i))
}

fn fraction_exec(s: &str, n: usize, j: usize) -> (r: Option<(u16, usize)>)
    requires
        n == s@.len(),
        j <= n,
    ensures
        match r {
            Some((v, k)) => fraction_at(s@, j as int) == Some((v as int, k as int)) && k <= n && v
                < 1000,
            None => fraction_at(s@, j as int) is None,
        },
{
    match decimal_exec(s, n, j) {
        None => None,
        Some(a) => match decimal_exec(s, n, j + 1) {
            None => Some((a as u16 * 100, j + 1)),
            Some(b) => match decimal_exec(s, n, j + 2) {
                None => Some((a as u16 * 100 + b as u16 * 10, j + 2)),
                Some(c) => {
                    if decimal_exec(s, n, j + 3).is_some() {
                        None
                    } else {
                        Some((a as u16 * 100 + b as u16 * 10 + c as u16, j + 3))
                    }
                },
            },
        },
    }
}

fn alpha_exec(s: &str, n: usize, i: usize) -> (r: Option<(u16, usize)>)
    requires
        n == s@.len(),
        i <= n,
    ensures
        match r {
            Some((v, k)) => alpha_at(s@, i as int) == Some((v as int, k as int)) && k <= n && v
                <= 1000,
            None => alpha_at(s@, i as int) is None,
        },
{
    match decimal_exec(s, n, i) {
        None => None,
        Some(u) => {
            if u > 1 || decimal_exec(s, n, i + 1).is_some() {
                None
            } else if i + 1 < n && s.get_char(i + 1) == '.' {
                match fraction_exec(s, n, i + 2) {
                    None => None,
                    Some((f, j)) => {
                        if u as u16 * 1000 + f > 1000 {
                            None
                        } else {
                            Some((u as u16 * 1000 + f, j))
                        }
                    },
                }
            } else {
                Some((u as u16 * 1000, i + 1))
            }
        },
    }
}

fn alpha_field_exec(s: &str, n: usize, i: usize) -> (r: Option<(u16, usize)>)
    requires
        n == s@.len(),
        i <= n,
    ensures
        match r {
            Some((v, k)) => alpha_field_at(s@, i as int) == Some((v as int, k as int)) && k <= n
                && v <= 1000,
            None => alpha_field_at(s@, i as int) is None,
        },
{
    alpha_exec(s, n, skip_white_exec(s, n, i))
}

fn alpha_byte_exec(t: u16) -> (r: u8)
    requires
        t <= 1000,
    ensures
        r == alpha_byte(t as int),
{
    ((t as u32 * 510 + 1000) / 2000) as u8
}

fn rgba_leading_exec(s: &str) -> (r: Option<Color>)
    ensures
        r == rgba_leading(s@),
{
    proof {
        reveal(rgba_leading);
    }
    let n = s.unicode_len();
    let i = skip_white_exec(s, n, 0);
    if n - i >= 4 && s.get_char(i) == 'r' && s.get_char(i + 1) == 'g' && s.get_char(i + 2) == 'b'
        && s.get_char(i + 3) == 'a' {
        if let Some(j0) = token_exec(s, n, i + 4, '(') {
            if let Some((a, j1)) = alpha_field_exec(s, n, j0) {
                if let Some(j2) = token_exec(s, n, j1, ',') {
                    if let Some((r, j3)) = field_exec(s, n, j2) {
                        if let Some(j4) = token_exec(s, n, j3, ',') {
                            if let Some((g, j5)) = field_exec(s, n, j4) {
                                if let Some(j6) = token_exec(s, n, j5, ',') {
                                    if let Some((b, j7)) = field_exec(s, n, j6) {
                                        if let Some(j8) = token_exec(s, n, j7, ')') {
                                            if skip_white_exec(s, n, j8) == n {
                                                return Some(Color::rgba(r, g, b, alpha_byte_exec(a)));
                                            }
                                        }
                                    }
                                }
                            }
                        }
                    }
                }
            }
        }
    }
    None
}

fn rgba_trailing_exec(s: &str) -> (r: Option<Color>)
    ensures
        r == rgba_trailing(s@),
{
    proof {
        reveal(rgba_trailing);
    }
    let n = s.unicode_len();
    let i = skip_white_exec(s, n, 0);
    if n - i >= 4 && s.get_char(i) == 'r' && s.get_char(i + 1) == 'g' && s.get_char(i + 2) == 'b'
        && s.get_char(i + 3) == 'a' {
        if let Some(j0) = token_exec(s, n, i + 4, '(') {
            if let Some((r, j1)) = field_exec(s, n, j0) {
                if let Some(j2) = token_exec(s, n, j1, ',') {
                    if let Some((g, j3)) = field_exec(s, n, j2) {
                        if let Some(j4) = token_exec(s, n, j3, ',') {
                            if let Some((b, j5)) = field_exec(s, n, j4) {
                                if let Some(j6) = token_exec(s, n, j5, ',') {
                                    if let Some((a, j7)) = alpha_field_exec(s, n, j6) {
                                        if let Some(j8) = token_exec(s, n, j7, ')') {
                                            if skip_white_exec(s, n, j8) == n {
                                                return Some(Color::rgba(r, g, b, alpha_byte_exec(a)));
                                            }
                                        }
                                    }
                                }
                            }
                        }
                    }
                }
            }
        }
    }
    None
}

fn rgb_exec(input: &str) -> (r: Option<Color>)
    ensures
        r == rgb_color(input@),
{
    let s = input;
    let n = s.unicode_len();
    let i = skip_white_exec(s, n, 0);
    let mut found: Option<Color> = None;
    if n - i >= 3 && s.get_char(i) == 'r' && s.get_char(i + 1) == 'g' && s.get_char(i + 2) == 'b' {
        if let Some(i1) = token_exec(s, n, i + 3, '(') {
            if let Some((r, i2)) = field_exec(s, n, i1) {
                if let Some(i3) = token_exec(s, n, i2, ',') {
                    if let Some((g, i4)) = field_exec(s, n, i3) {
                        if let Some(i5) = token_exec(s, n, i4, ',') {
                            if let Some((b, i6)) = field_exec(s, n, i5) {
                                if let Some(i7) = token_exec(s, n, i6, ')') {
                                    if skip_white_exec(s, n, i7) == n {
                                        found = Some(Color::rgb(r, g, b));
                                    }
                                }
                            }
                        }
                    }
                }
            }
        }
    }
    found
}

/// Parses the functional RGB notation under an alpha position.
pub fn parse_rgb(input: &str, pos: AlphaPosition) -> (r: Result<Color, ColorError>)
    ensures
        match r {
            Ok(c) => functional_color(input@, pos) == Some(c),
            Err(e) => functional_color(input@, pos) is None && e.message() == "Invalid rgb color"@,
        },
{
    let found = match rgb_exec(input) {
        Some(c) => Some(c),
        None => match pos {
            AlphaPosition::Hidden => None,
            AlphaPosition::Leading => rgba_leading_exec(input),
            AlphaPosition::Trailing => rgba_trailing_exec(input),
        },
    };
    match found {
        Some(c) => Ok(c),
        None => Err(ColorError::ParsingError(String::from_str("Invalid rgb color"))),
    }
}

/// Appends the decimal digits of a channel.
fn push_channel(out: &mut String, v: u8)
    ensures
        final(out)@ == old(out)@ + channel_text(v),
{
    let digits = "0123456789";
    proof {
        reveal_strlit("0123456789");
    }
    if v >= 100 {
        let d = (v / 100) as usize;
        out.append(digits.substring_char(d, d + 1));
    }
    if v >= 10 {
        let d = ((v / 10) % 10) as usize;
        out.append(digits.substring_char(d, d + 1));
    }
    let d = (v % 10) as usize;
    out.append(digits.substring_char(d, d + 1));
    assert(final(out)@ =~= old(out)@ + channel_text(v));
}

/// Appends the alpha of a colour with three places.
fn push_alpha(out: &mut String, a: u8)
    ensures
        final(out)@ == old(out)@ + alpha_text(a),
{
    let digits = "0123456789";
    proof {
        reveal_strlit("0123456789");
        reveal_strlit(".");
    }
    let t = ((a as u32 * 2000 + 255) / 510) as usize;
    assert(t <= 1000);
    let d = t / 1000;
    out.append(digits.substring_char(d, d + 1));
    out.append(".");
    let d = (t / 100) % 10;
    out.append(digits.substring_char(d, d + 1));
    let d = (t / 10) % 10;
    out.append(digits.substring_char(d, d + 1));
    let d = t % 10;
    out.append(digits.substring_char(d, d + 1));
    assert(final(out)@ =~= old(out)@ + alpha_text(a));
}

/// The three channels of a colour, separated by `, `.
pub open spec fn channels_text(c: Color) -> Seq<char> {
    channel_text(c.red) + seq![',', ' '] + channel_text(c.green) + seq![',', ' '] + channel_text(
        c.blue,
    )
}

fn push_channels(out: &mut String, c: Color)
    ensures
        final(out)@ == old(out)@ + channels_text(c),
{
    push_channel(out, c.red);
    out.append(", ");
    push_channel(out, c.green);
    out.append(", ");
    push_channel(out, c.blue);
    proof {
        reveal_strlit(", ");
    }
    assert(final(out)@ =~= old(out)@ + channels_text(c));
}

/// Writes a colour in the functional RGB notation under an alpha position.
pub fn format_rgb(c: Color, pos: AlphaPosition) -> (r: String)
    ensures
        r@ == functional_text(c, pos),
{
    proof {
        reveal_strlit("rgb(");
        reveal_strlit("rgba(");
        reveal_strlit(", ");
        reveal_strlit(")");
    }
    match pos {
        AlphaPosition::Hidden => {
            let mut out = String::from_str("rgb(");
            push_channels(&mut out, c);
            out.append(")");
            assert(out@ =~= rgb_text(c));
            out
        },
        AlphaPosition::Leading => {
            let mut out = String::from_str("rgba(");
            push_alpha(&mut out, c.alpha);
            out.append(", ");
            push_channels(&mut out, c);
            out.append(")");
            assert(out@ =~= functional_text(c, pos));
            out
        },
        AlphaPosition::Trailing => {
            let mut out = String::from_str("rgba(");
            push_channels(&mut out, c);
            out.append(", ");
            push_alpha(&mut out, c.alpha);
            out.append(")");
            assert(out@ =~= functional_text(c, pos));
            out
        },
    }
}

proof fn lemma_decimal_char(d: int)
    requires
        0 <= d < 10,
    ensures
        '0' <= decimal_char(d) <= '9',
        decimal_char(d) as int - '0' as int == d,
{
    assert(d == 0 || d == 1 || d == 2 || d == 3 || d == 4 || d == 5 || d == 6 || d == 7 || d == 8
        || d == 9);
}

/// The digits of a channel, followed by a character that is no digit, read
/// back as that channel.
proof fn lemma_channel_read(s: Seq<char>, k: int, v: u8)
    requires
        0 <= k,
        k + channel_text(v).len() < s.len(),
        s.subrange(k, k + channel_text(v).len()) == channel_text(v),
        !('0' <= s[k + channel_text(v).len()] <= '9'),
    ensures
        channel_at(s, k) == Some((v, k + channel_text(v).len())),
        skip_white(s, k) == k,
        1 <= channel_text(v).len() <= 3,
{
    let t = channel_text(v);
    let m = t.len() as int;
    assert(forall|j: int| 0 <= j < m ==> s[k + j] == t[j]) by {
        assert forall|j: int| 0 <= j < m implies s[k + j] == t[j] by {
            assert(s.subrange(k, k + m)[j] == s[k + j]);
        }
    }
    lemma_decimal_char(v as int % 10);
    if v < 10 {
    } else if v < 100 {
        lemma_decimal_char(v as int / 10);
    } else {
        lemma_decimal_char((v as int / 10) % 10);
        lemma_decimal_char(v as int / 100);
    }
    assert(s[k] == t[0]);
    assert('0' <= s[k] <= '9');
    assert(!is_white_space_spec(s[k]));
}

/// Writing a colour in the RGB notation and reading the text back gives the
/// colour again, for every opaque colour (the only ones reading produces).
#[verifier::rlimit(40)]
pub proof fn lemma_rgb_round_trip(c: Color)
    requires
        c.alpha == 255,
    ensures
        rgb_color(rgb_text(c)) == Some(c),
{
    let t = rgb_text(c);
    let lr = channel_text(c.red).len() as int;
    let lg = channel_text(c.green).len() as int;
    let lb = channel_text(c.blue).len() as int;
    let first_comma = 4 + lr;
    let second_comma = first_comma + 2 + lg;
    let close = second_comma + 2 + lb;
    assert(t.len() == close + 1);
    assert(t.subrange(4, first_comma) =~= channel_text(c.red));
    assert(t.subrange(first_comma + 2, second_comma) =~= channel_text(c.green));
    assert(t.subrange(second_comma + 2, close) =~= channel_text(c.blue));
    assert(t[0] == 'r' && t[1] == 'g' && t[2] == 'b' && t[3] == '(');
    assert(t[first_comma] == ',' && t[first_comma + 1] == ' ');
    assert(t[second_comma] == ',' && t[second_comma + 1] == ' ');
    assert(t[close] == ')');
    assert(skip_white(t, 0) == 0);
    assert(skip_white(t, 3) == 3);
    lemma_channel_read(t, 4, c.red);
    lemma_channel_read(t, first_comma + 2, c.green);
    lemma_channel_read(t, second_comma + 2, c.blue);
    assert(skip_white(t, first_comma) == first_comma);
    assert(skip_white(t, first_comma + 1) == skip_white(t, first_comma + 2));
    assert(skip_white(t, second_comma) == second_comma);
    assert(skip_white(t, second_comma + 1) == skip_white(t, second_comma + 2));
    assert(skip_white(t, close) == close);
    assert(skip_white(t, close + 1) == close + 1);
}

/// Reading the RGB notation gives an opaque colour.
pub proof fn lemma_rgb_produces_opaque(s: Seq<char>)
    requires
        rgb_color(s) is Some,
    ensures
        rgb_color(s).unwrap().alpha == 255,
{
}

proof fn lemma_alpha_bytes(a: u8)
    ensures
        0 <= alpha_thousandths(a) <= 1000,
        alpha_byte(alpha_thousandths(a)) == a,
{
    let t = alpha_thousandths(a);
    assert(t * 510 <= a * 2000 + 255 && a * 2000 + 255 < t * 510 + 510) by (nonlinear_arith)
        requires
            t == (a * 2000 + 255) / 510,
            0 <= a <= 255,
    ;
    assert(0 <= t <= 1000);
    let v = (t * 510 + 1000) / 2000;
    assert(v * 2000 <= t * 510 + 1000 && t * 510 + 1000 < v * 2000 + 2000) by (nonlinear_arith)
        requires
            v == (t * 510 + 1000) / 2000,
            0 <= t,
    ;
    assert(v == a) by (nonlinear_arith)
        requires
            v * 2000 <= t * 510 + 1000,
            t * 510 + 1000 < v * 2000 + 2000,
            t * 510 <= a * 2000 + 255,
            a * 2000 + 255 < t * 510 + 510,
    ;
}

/// The text of an alpha, followed by a character that is no digit, read back
/// as that alpha.
proof fn lemma_alpha_read(s: Seq<char>, k: int, a: u8)
    requires
        0 <= k,
        k + 5 < s.len(),
        s.subrange(k, k + 5) == alpha_text(a),
        !('0' <= s[k + 5] <= '9'),
    ensures
        alpha_at(s, k) == Some((alpha_thousandths(a), k + 5)),
        skip_white(s, k) == k,
        alpha_byte(alpha_thousandths(a)) == a,
{
    lemma_alpha_bytes(a);
    let t = alpha_thousandths(a);
    let x = alpha_text(a);
    assert(forall|j: int| 0 <= j < 5 ==> s[k + j] == x[j]) by {
        assert forall|j: int| 0 <= j < 5 implies s[k + j] == x[j] by {
            assert(s.subrange(k, k + 5)[j] == s[k + j]);
        }
    }
    lemma_decimal_char(t / 1000);
    lemma_decimal_char((t / 100) % 10);
    lemma_decimal_char((t / 10) % 10);
    lemma_decimal_char(t % 10);
    assert(s[k + 1] == '.');
    assert(((t / 100) % 10) * 100 + ((t / 10) % 10) * 10 + t % 10 + (t / 1000) * 1000 == t);
    assert(!is_white_space_spec(s[k]));
}

#[verifier::rlimit(60)]
proof fn lemma_leading_round_trip(c: Color)
    ensures
        rgba_leading(functional_text(c, AlphaPosition::Leading)) == Some(c),
{
    let pos = AlphaPosition::Leading;
    let start = 12int;
    let t = functional_text(c, pos);
    let lr = channel_text(c.red).len() as int;
    let lg = channel_text(c.green).len() as int;
    let lb = channel_text(c.blue).len() as int;
    assert(t[0] == 'r' && t[1] == 'g' && t[2] == 'b' && t[3] == 'a' && t[4] == '(');
    assert(skip_white(t, 0) == 0);
    assert(skip_white(t, 4) == 4);
    let first_comma = start + lr;
    let second_comma = first_comma + 2 + lg;
    let third = second_comma + 2 + lb;
    assert(t.subrange(start, first_comma) =~= channel_text(c.red));
    assert(t.subrange(first_comma + 2, second_comma) =~= channel_text(c.green));
    assert(t.subrange(second_comma + 2, third) =~= channel_text(c.blue));
    assert(t[first_comma] == ',' && t[first_comma + 1] == ' ');
    assert(t[second_comma] == ',' && t[second_comma + 1] == ' ');
    lemma_channel_read(t, start, c.red);
    lemma_channel_read(t, first_comma + 2, c.green);
    lemma_channel_read(t, second_comma + 2, c.blue);
    assert(skip_white(t, first_comma) == first_comma);
    assert(skip_white(t, first_comma + 1) == skip_white(t, first_comma + 2));
    assert(skip_white(t, second_comma) == second_comma);
    assert(skip_white(t, second_comma + 1) == skip_white(t, second_comma + 2));
    assert(skip_white(t, third) == third);
    assert(t.len() == third + 1);
    assert(t.subrange(5, 10) =~= alpha_text(c.alpha));
    assert(t[10] == ',' && t[11] == ' ' && t[third] == ')');
    lemma_alpha_read(t, 5, c.alpha);
    assert(skip_white(t, 10) == 10);
    assert(skip_white(t, 11) == skip_white(t, 12));
    assert(skip_white(t, third + 1) == third + 1);
    reveal(rgba_leading);
}

#[verifier::rlimit(60)]
proof fn lemma_trailing_round_trip(c: Color)
    ensures
        rgba_trailing(functional_text(c, AlphaPosition::Trailing)) == Some(c),
{
    let pos = AlphaPosition::Trailing;
    let start = 5int;
    let t = functional_text(c, pos);
    let lr = channel_text(c.red).len() as int;
    let lg = channel_text(c.green).len() as int;
    let lb = channel_text(c.blue).len() as int;
    assert(t[0] == 'r' && t[1] == 'g' && t[2] == 'b' && t[3] == 'a' && t[4] == '(');
    assert(skip_white(t, 0) == 0);
    assert(skip_white(t, 4) == 4);
    let first_comma = start + lr;
    let second_comma = first_comma + 2 + lg;
    let third = second_comma + 2 + lb;
    assert(t.subrange(start, first_comma) =~= channel_text(c.red));
    assert(t.subrange(first_comma + 2, second_comma) =~= channel_text(c.green));
    assert(t.subrange(second_comma + 2, third) =~= channel_text(c.blue));
    assert(t[first_comma] == ',' && t[first_comma + 1] == ' ');
    assert(t[second_comma] == ',' && t[second_comma + 1] == ' ');
    lemma_channel_read(t, start, c.red);
    lemma_channel_read(t, first_comma + 2, c.green);
    lemma_channel_read(t, second_comma + 2, c.blue);
    assert(skip_white(t, first_comma) == first_comma);
    assert(skip_white(t, first_comma + 1) == skip_white(t, first_comma + 2));
    assert(skip_white(t, second_comma) == second_comma);
    assert(skip_white(t, second_comma + 1) == skip_white(t, second_comma + 2));
    assert(skip_white(t, third) == third);
    assert(t.len() == third + 8);
    assert(t[third] == ',' && t[third + 1] == ' ' && t[third + 7] == ')');
    assert(t.subrange(third + 2, third + 7) =~= alpha_text(c.alpha));
    lemma_alpha_read(t, third + 2, c.alpha);
    assert(skip_white(t, third + 1) == skip_white(t, third + 2));
    assert(skip_white(t, third + 7) == third + 7);
    assert(skip_white(t, third + 8) == third + 8);
    reveal(rgba_trailing);
}

/// Text that starts with `rgba` is no `rgb(...)` text.
proof fn lemma_rgba_is_not_rgb(t: Seq<char>)
    requires
        t.len() > 4,
        t[0] == 'r' && t[1] == 'g' && t[2] == 'b' && t[3] == 'a',
    ensures
        rgb_color(t) is None,
{
    assert(skip_white(t, 0) == 0);
    assert(skip_white(t, 3) == 3);
}

/// Writing a colour in the functional RGB notation and reading the text back
/// under the same alpha position gives the colour again; with alpha hidden,
/// for the opaque colours that reading can produce.
pub proof fn lemma_functional_round_trip(c: Color, pos: AlphaPosition)
    requires
        pos == AlphaPosition::Hidden ==> c.alpha == 255,
    ensures
        functional_color(functional_text(c, pos), pos) == Some(c),
{
    let t = functional_text(c, pos);
    if pos == AlphaPosition::Hidden {
        lemma_rgb_round_trip(c);
    } else {
        assert(t[0] == 'r' && t[1] == 'g' && t[2] == 'b' && t[3] == 'a');
        lemma_rgba_is_not_rgb(t);
        if pos == AlphaPosition::Leading {
            lemma_leading_round_trip(c);
        } else {
            lemma_trailing_round_trip(c);
        }
    }
}

} // verus!
