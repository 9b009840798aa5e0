//! The hexadecimal notation: `#RGB`, `#RRGGBB`, and, where alpha is shown,
//! `#AARRGGBB` or `#RRGGBBAA`. Digits are written in upper case and read in
//! either case; the leading `#` is optional on input.
use vstd::prelude::*;

use crate::color::{AlphaPosition, Color, ColorError};

verus! {

/// The digits used when writing, indexed by value.
pub open spec fn digit_chars() -> Seq<char> {
    seq!['0', '1', '2', '3', '4', '5', '6', '7', '8', '9', 'A', 'B', 'C', 'D', 'E', 'F']
}

/// The value of one hexadecimal digit, in either case.
pub open spec fn digit_value(c: char) -> Option<int> {
    if '0' <= c && c <= '9' {
        Some(c as int - '0' as int)
    } else if 'a' <= c && c <= 'f' {
        Some(c as int - 'a' as int + 10)
    } else if 'A' <= c && c <= 'F' {
        Some(c as int - 'A' as int + 10)
    } else {
        None
    }
}

/// The byte written by the two digits at `i` and `i + 1`.
pub open spec fn byte_at(s: Seq<char>, i: int) -> Option<u8> {
    match (digit_value(s[i]), digit_value(s[i + 1])) {
        (Some(h), Some(l)) => Some((h * 16 + l) as u8),
        _ => None,
    }
}

/// The byte written by the single digit at `i` of a short form (`F` is `FF`).
pub open spec fn short_at(s: Seq<char>, i: int) -> Option<u8> {
    match digit_value(s[i]) {
        Some(d) => Some((d * 17) as u8),
        None => None,
    }
}

/// The digits of a code, without its optional `#`.
pub open spec fn code_digits(s: Seq<char>) -> Seq<char> {
    if s.len() > 0 && s[0] == '#' {
        s.drop_first()
    } else {
        s
    }
}

/// The colour a hex code denotes under an alpha position, if it is one.
/// Eight digits are read only where alpha is shown, at its configured place.
pub open spec fn hex_color(s: Seq<char>, pos: AlphaPosition) -> Option<Color> {
    let d = code_digits(s);
    if d.len() == 3 {
        match (short_at(d, 0), short_at(d, 1), short_at(d, 2)) {
            (Some(r), Some(g), Some(b)) => Some(Color { red: r, green: g, blue: b, alpha: 255 }),
            _ => None,
        }
    } else if d.len() == 6 {
        match (byte_at(d, 0), byte_at(d, 2), byte_at(d, 4)) {
            (Some(r), Some(g), Some(b)) => Some(Color { red: r, green: g, blue: b, alpha: 255 }),
            _ => None,
        }
    } else if d.len() == 8 && pos == AlphaPosition::Leading {
        match (byte_at(d, 0), byte_at(d, 2), byte_at(d, 4), byte_at(d, 6)) {
            (Some(a), Some(r), Some(g), Some(b)) => Some(Color { red: r, green: g, blue: b, alpha: a }),
            _ => None,
        }
    } else if d.len() == 8 && pos == AlphaPosition::Trailing {
        match (byte_at(d, 0), byte_at(d, 2), byte_at(d, 4), byte_at(d, 6)) {
            (Some(r), Some(g), Some(b), Some(a)) => Some(Color { red: r, green: g, blue: b, alpha: a }),
            _ => None,
        }
    } else {
        None
    }
}

/// The two upper-case digits of a byte.
pub open spec fn byte_text(b: u8) -> Seq<char> {
    seq![digit_chars()[b as int / 16], digit_chars()[b as int % 16]]
}

/// The hex code of a colour: `#`, then the channels, with alpha first or
/// last as configured, or left out.
pub open spec fn hex_text(c: Color, pos: AlphaPosition) -> Seq<char> {
    let rgb = byte_text(c.red) + byte_text(c.green) + byte_text(c.blue);
    seq!['#'] + match pos {
        AlphaPosition::Hidden => rgb,
        AlphaPosition::Leading => byte_text(c.alpha) + rgb,
        AlphaPosition::Trailing => rgb + byte_text(c.alpha),
    }
}

/// Reads one digit.
fn read_digit(c: char) -> (r: Option<u8>)
    ensures
        match r {
            Some(v) => digit_value(c) == Some(v as int) && v < 16,
            None => digit_value(c) is None,
        },
{
    if '0' <= c && c <= '9' {
        Some((c as u32 - '0' as u32) as u8)
    } else if 'a' <= c && c <= 'f' {
        Some((c as u32 - 'a' as u32 + 10) as u8)
    } else if 'A' <= c && c <= 'F' {
        Some((c as u32 - 'A' as u32 + 10) as u8)
    } else {
        None
    }
}

fn read_byte(s: &str, i: usize) -> (r: Option<u8>)
    requires
        i < 8,
        i + 1 < s@.len(),
    ensures
        r == byte_at(s@, i as int),
{
    match (read_digit(s.get_char(i)), read_digit(s.get_char(i + 1))) {
        (Some(h), Some(l)) => Some(h * 16 + l),
        _ => None,
    }
}

fn read_short(s: &str, i: usize) -> (r: Option<u8>)
    requires
        i < s@.len(),
    ensures
        r == short_at(s@, i as int),
{
    match read_digit(s.get_char(i)) {
        Some(d) => Some(d * 17),
        None => None,
    }
}

/// Parses a hex code under the given alpha position.
pub fn parse_hex(input: &str, pos: AlphaPosition) -> (r: Result<Color, ColorError>)
    ensures
        match r {
            Ok(c) => hex_color(input@, pos) == Some(c),
            Err(e) => hex_color(input@, pos) is None && e.message() == "Invalid hex color code"@,
        },
{
    let n = input.unicode_len();
    let d = if n > 0 && input.get_char(0) == '#' {
        input.substring_char(1, n)
    } else {
        input.substring_char(0, n)
    };
    assert(d@ == code_digits(input@));
    let len = d.unicode_len();
    let found = if len == 3 {
        match (read_short(d, 0), read_short(d, 1), read_short(d, 2)) {
            (Some(r), Some(g), Some(b)) => Some(Color::rgb(r, g, b)),
            _ => None,
        }
    } else if len == 6 {
        match (read_byte(d, 0), read_byte(d, 2), read_byte(d, 4)) {
            (Some(r), Some(g), Some(b)) => Some(Color::rgb(r, g, b)),
            _ => None,
        }
    } else if len == 8 && pos == AlphaPosition::Leading {
        match (read_byte(d, 0), read_byte(d, 2), read_byte(d, 4), read_byte(d, 6)) {
            (Some(a), Some(r), Some(g), Some(b)) => Some(Color::rgba(r, g, b, a)),
            _ => None,
        }
    } else if len == 8 && pos == AlphaPosition::Trailing {
        match (read_byte(d, 0), read_byte(d, 2), read_byte(d, 4), read_byte(d, 6)) {
            (Some(r), Some(g), Some(b), Some(a)) => Some(Color::rgba(r, g, b, a)),
            _ => None,
        }
    } else {
        None
    };
    match found {
        Some(c) => Ok(c),
        None => Err(ColorError::ParsingError(String::from_str("Invalid hex color code"))),
    }
}

/// Appends the two digits of a byte.
fn push_byte(out: &mut String, b: u8)
    ensures
        final(out)@ == old(out)@ + byte_text(b),
{
    let digits = "0123456789ABCDEF";
    proof {
        reveal_strlit("0123456789ABCDEF");
    }
    assert(digits@ == digit_chars());
    let hi = (b / 16) as usize;
    let lo = (b % 16) as usize;
    out.append(digits.substring_char(hi, hi + 1));
    out.append(digits.substring_char(lo, lo + 1));
    assert(final(out)@ =~= old(out)@ + byte_text(b));
}

/// Writes the hex code of a colour under the given alpha position.
pub fn format_hex(c: Color, pos: AlphaPosition) -> (r: String)
    ensures
        r@ == hex_text(c, pos),
{
    let mut out = String::from_str("#");
    proof {
        reveal_strlit("#");
    }
    if pos == AlphaPosition::Leading {
        push_byte(&mut out, c.alpha);
    }
    push_byte(&mut out, c.red);
    push_byte(&mut out, c.green);
    push_byte(&mut out, c.blue);
    if pos == AlphaPosition::Trailing {
        push_byte(&mut out, c.alpha);
    }
    assert(out@ =~= hex_text(c, pos));
    out
}

proof fn lemma_digit_round_trip(d: int)
    requires
        0 <= d < 16,
    ensures
        digit_value(digit_chars()[d]) == Some(d),
{
    assert(d == 0 || d == 1 || d == 2 || d == 3 || d == 4 || d == 5 || d == 6 || d == 7 || d == 8
        || d == 9 || d == 10 || d == 11 || d == 12 || d == 13 || d == 14 || d == 15);
}

proof fn lemma_byte_round_trip(b: u8, s: Seq<char>, i: int)
    requires
        0 <= i,
        i + 1 < s.len(),
        s[i] == byte_text(b)[0],
        s[i + 1] == byte_text(b)[1],
    ensures
        byte_at(s, i) == Some(b),
{
    lemma_digit_round_trip(b as int / 16);
    lemma_digit_round_trip(b as int % 16);
}

/// Writing a colour as a hex code and reading the code back under the same
/// alpha position gives the colour again. Where alpha is hidden only opaque
/// colours can come out of reading, so the law is stated for those.
pub proof fn lemma_hex_round_trip(c: Color, pos: AlphaPosition)
    requires
        pos == AlphaPosition::Hidden ==> c.alpha == 255,
    ensures
        hex_color(hex_text(c, pos), pos) == Some(c),
{
    let t = hex_text(c, pos);
    let d = code_digits(t);
    assert(d =~= t.drop_first());
    match pos {
        AlphaPosition::Hidden => {
            lemma_byte_round_trip(c.red, d, 0);
            lemma_byte_round_trip(c.green, d, 2);
            lemma_byte_round_trip(c.blue, d, 4);
        },
        AlphaPosition::Leading => {
            lemma_byte_round_trip(c.alpha, d, 0);
            lemma_byte_round_trip(c.red, d, 2);
            lemma_byte_round_trip(c.green, d, 4);
            lemma_byte_round_trip(c.blue, d, 6);
        },
        AlphaPosition::Trailing => {
            lemma_byte_round_trip(c.red, d, 0);
            lemma_byte_round_trip(c.green, d, 2);
            lemma_byte_round_trip(c.blue, d, 4);
            lemma_byte_round_trip(c.alpha, d, 6);
        },
    }
}

/// Under a leading alpha position the alpha byte is the first pair of digits
/// of the code; under a trailing one it is the last pair. An eight-digit code
/// is read only where alpha is shown: with alpha hidden it is refused.
pub proof fn lemma_hex_alpha_position(c: Color)
    ensures
        hex_text(c, AlphaPosition::Leading).subrange(1, 3) == byte_text(c.alpha),
        hex_text(c, AlphaPosition::Trailing).subrange(7, 9) == byte_text(c.alpha),
        hex_text(c, AlphaPosition::Hidden).len() == 7,
        hex_color(hex_text(c, AlphaPosition::Leading), AlphaPosition::Hidden) is None,
        hex_color(hex_text(c, AlphaPosition::Trailing), AlphaPosition::Hidden) is None,
{
    assert(hex_text(c, AlphaPosition::Leading).subrange(1, 3) =~= byte_text(c.alpha));
    assert(hex_text(c, AlphaPosition::Trailing).subrange(7, 9) =~= byte_text(c.alpha));
    assert(code_digits(hex_text(c, AlphaPosition::Leading)).len() == 8);
    assert(code_digits(hex_text(c, AlphaPosition::Trailing)).len() == 8);
}

/// With alpha hidden, reading a hex code gives an opaque colour.
pub proof fn lemma_hex_produces(s: Seq<char>, pos: AlphaPosition)
    requires
        hex_color(s, pos) is Some,
    ensures
        pos == AlphaPosition::Hidden ==> hex_color(s, pos).unwrap().alpha == 255,
{
}

} // verus!
