use color_notation::color::{AlphaPosition, Color, ColorError};
use color_notation::notation::Notation;
use color_notation::rgb::{format_rgb, parse_rgb};

fn invalid() -> Result<Color, ColorError> {
    Err(ColorError::ParsingError("Invalid rgb color".to_string()))
}

#[test]
fn rgb_formats_decimal_channels() {
    assert_eq!(format_rgb(Color::rgb(255, 7, 40), AlphaPosition::Hidden), "rgb(255, 7, 40)");
    assert_eq!(format_rgb(Color::rgba(0, 100, 9, 3), AlphaPosition::Hidden), "rgb(0, 100, 9)");
}

#[test]
fn rgb_parses_with_loose_white_space() {
    assert_eq!(parse_rgb("rgb(255,7,40)", AlphaPosition::Hidden), Ok(Color::rgb(255, 7, 40)));
    assert_eq!(parse_rgb("  rgb ( 1 , 02 ,\t003 )  ", AlphaPosition::Hidden), Ok(Color::rgb(1, 2, 3)));
}

#[test]
fn rgb_rejects_out_of_range_channel() {
    assert_eq!(parse_rgb("rgb(256, 0, 0)", AlphaPosition::Hidden), invalid());
    assert_eq!(parse_rgb("rgb(0, 0, 1000)", AlphaPosition::Hidden), invalid());
}

#[test]
fn rgb_rejects_wrong_arity_and_trailing_tokens() {
    assert_eq!(parse_rgb("rgb(1, 2)", AlphaPosition::Hidden), invalid());
    assert_eq!(parse_rgb("rgb(1, 2, 3, 4)", AlphaPosition::Hidden), invalid());
    assert_eq!(parse_rgb("rgb(1, 2, 3) x", AlphaPosition::Hidden), invalid());
    assert_eq!(parse_rgb("rgb(1, -2, 3)", AlphaPosition::Hidden), invalid());
    assert_eq!(parse_rgb("hsl(1, 2, 3)", AlphaPosition::Hidden), invalid());
    assert_eq!(parse_rgb("", AlphaPosition::Hidden), invalid());
}

#[test]
fn rgb_round_trip_through_notation() {
    for c in [Color::rgb(0, 0, 0), Color::rgb(255, 255, 255), Color::rgb(9, 99, 199)] {
        let text = Notation::Rgb.as_str(c, AlphaPosition::Trailing, None).unwrap();
        assert_eq!(Notation::Rgb.parse(&text, AlphaPosition::Trailing, None), Ok(c));
    }
}

#[test]
fn rgba_writes_alpha_at_configured_place() {
    let c = Color::rgba(1, 2, 3, 128);
    assert_eq!(format_rgb(c, AlphaPosition::Trailing), "rgba(1, 2, 3, 0.502)");
    assert_eq!(format_rgb(c, AlphaPosition::Leading), "rgba(0.502, 1, 2, 3)");
    assert_eq!(format_rgb(Color::rgb(9, 9, 9), AlphaPosition::Trailing), "rgba(9, 9, 9, 1.000)");
    assert_eq!(format_rgb(Color::rgba(9, 9, 9, 0), AlphaPosition::Leading), "rgba(0.000, 9, 9, 9)");
}

#[test]
fn rgba_reads_alpha_at_configured_place() {
    assert_eq!(parse_rgb("rgba(1, 2, 3, 0.5)", AlphaPosition::Trailing), Ok(Color::rgba(1, 2, 3, 128)));
    assert_eq!(parse_rgb("rgba(1, 2, 3, 1)", AlphaPosition::Trailing), Ok(Color::rgba(1, 2, 3, 255)));
    assert_eq!(parse_rgb("rgba(0.25, 1, 2, 3)", AlphaPosition::Leading), Ok(Color::rgba(1, 2, 3, 64)));
    assert_eq!(parse_rgb("rgb(1, 2, 3)", AlphaPosition::Leading), Ok(Color::rgb(1, 2, 3)));
}

#[test]
fn rgba_refused_out_of_place_or_range() {
    assert_eq!(parse_rgb("rgba(1, 2, 3, 0.5)", AlphaPosition::Hidden), invalid());
    assert_eq!(parse_rgb("rgba(1, 2, 3, 0.5)", AlphaPosition::Leading), invalid());
    assert_eq!(parse_rgb("rgba(1, 2, 3, 1.5)", AlphaPosition::Trailing), invalid());
    assert_eq!(parse_rgb("rgba(1, 2, 3, 0.1234)", AlphaPosition::Trailing), invalid());
}

#[test]
fn rgba_round_trip_every_alpha() {
    for pos in [AlphaPosition::Leading, AlphaPosition::Trailing] {
        for a in 0..=255u8 {
            let c = Color::rgba(10, 200, 0, a);
            let text = Notation::Rgb.as_str(c, pos, None).unwrap();
            assert_eq!(Notation::Rgb.parse(&text, pos, None), Ok(c));
        }
    }
}
