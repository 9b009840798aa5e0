use color_notation::color::{AlphaPosition, Color, ColorError};
use color_notation::hsl::{format_hsl, parse_hsl};
use color_notation::notation::Notation;

fn error(message: &str) -> Result<Color, ColorError> {
    Err(ColorError::ParsingError(message.to_string()))
}

#[test]
fn hsl_primary_colours() {
    assert_eq!(parse_hsl("hsl(0, 100%, 50%)"), Ok(Color::rgb(255, 0, 0)));
    assert_eq!(parse_hsl("hsl(120, 100%, 50%)"), Ok(Color::rgb(0, 255, 0)));
    assert_eq!(parse_hsl("hsl(240,100%,50%)"), Ok(Color::rgb(0, 0, 255)));
}

#[test]
fn hsl_grey_rounds_half_up() {
    assert_eq!(parse_hsl(" hsl( 0 , 0 % , 50 % ) "), Ok(Color::rgb(128, 128, 128)));
}

#[test]
fn hsl_exact_rounding() {
    assert_eq!(parse_hsl("hsl(10, 50%, 50%)"), Ok(Color::rgb(191, 85, 64)));
}

#[test]
fn hsl_hue_wraps_modulo_360() {
    assert_eq!(parse_hsl("hsl(370, 50%, 50%)"), parse_hsl("hsl(10, 50%, 50%)"));
    assert_eq!(parse_hsl("hsl(360, 100%, 50%)"), Ok(Color::rgb(255, 0, 0)));
    assert_eq!(parse_hsl("hsl(1000, 50%, 50%)"), parse_hsl("hsl(280, 50%, 50%)"));
    assert_eq!(parse_hsl("hsl(0000000370, 50%, 50%)"), parse_hsl("hsl(10, 50%, 50%)"));
}

#[test]
fn hsl_saturation_out_of_range_is_rejected() {
    let range = "Saturation and lightness must lie between 0% and 100%";
    assert_eq!(
        Notation::Hsl.parse("hsl(0, 150%, 50%)", AlphaPosition::Hidden, None),
        error(range)
    );
    assert_eq!(parse_hsl("hsl(0, 50%, 101%)"), error(range));
}

#[test]
fn hsl_malformed_is_rejected() {
    assert_eq!(parse_hsl("hsl(0, 50, 50%)"), error("Invalid hsl color"));
    assert_eq!(parse_hsl("hsl(0, 50%)"), error("Invalid hsl color"));
    assert_eq!(parse_hsl("rgb(0, 50%, 50%)"), error("Invalid hsl color"));
}

#[test]
fn hsl_formats_whole_degrees_and_percents() {
    assert_eq!(format_hsl(Color::rgb(255, 0, 0)), "hsl(0, 100%, 50%)");
    assert_eq!(format_hsl(Color::rgb(191, 85, 64)), "hsl(10, 50%, 50%)");
    assert_eq!(format_hsl(Color::rgb(128, 128, 128)), "hsl(0, 0%, 50%)");
    assert_eq!(format_hsl(Color::rgb(255, 0, 1)), "hsl(0, 100%, 50%)");
    assert_eq!(format_hsl(Color::rgb(0, 0, 255)), "hsl(240, 100%, 50%)");
}

#[test]
fn hsl_round_trip_of_sample() {
    let c = Color::rgb(191, 85, 64);
    let text = Notation::Hsl.as_str(c, AlphaPosition::Hidden, None).unwrap();
    assert_eq!(Notation::Hsl.parse(&text, AlphaPosition::Hidden, None), Ok(c));
}
