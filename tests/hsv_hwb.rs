use color_notation::color::{AlphaPosition, Color, ColorError};
use color_notation::hsv::{format_hsv, parse_hsv};
use color_notation::hwb::{format_hwb, parse_hwb};
use color_notation::notation::Notation;

fn error(message: &str) -> Result<Color, ColorError> {
    Err(ColorError::ParsingError(message.to_string()))
}

#[test]
fn hsv_reads_exact_values() {
    assert_eq!(parse_hsv("hsv(0, 100%, 100%)"), Ok(Color::rgb(255, 0, 0)));
    assert_eq!(parse_hsv("hsv(0, 0%, 50%)"), Ok(Color::rgb(128, 128, 128)));
    assert_eq!(parse_hsv("hsv(10, 50%, 50%)"), Ok(Color::rgb(128, 74, 64)));
}

#[test]
fn hsv_hue_wraps_modulo_360() {
    assert_eq!(parse_hsv("hsv(370, 50%, 50%)"), parse_hsv("hsv(10, 50%, 50%)"));
    assert_eq!(parse_hsv("hsv(36010, 50%, 50%)"), parse_hsv("hsv(10, 50%, 50%)"));
}

#[test]
fn hsv_range_and_shape_errors() {
    assert_eq!(
        parse_hsv("hsv(0, 101%, 50%)"),
        error("Saturation and value must lie between 0% and 100%")
    );
    assert_eq!(parse_hsv("hsv(0, 10%)"), error("Invalid hsv color"));
}

#[test]
fn hsv_writes_whole_degrees_and_percents() {
    assert_eq!(format_hsv(Color::rgb(255, 0, 0)), "hsv(0, 100%, 100%)");
    assert_eq!(format_hsv(Color::rgb(0, 0, 0)), "hsv(0, 0%, 0%)");
    assert_eq!(format_hsv(Color::rgb(128, 74, 64)), "hsv(9, 50%, 50%)");
}

#[test]
fn hwb_reads_exact_values() {
    assert_eq!(parse_hwb("hwb(0, 0%, 0%)"), Ok(Color::rgb(255, 0, 0)));
    assert_eq!(parse_hwb("hwb(120, 20%, 30%)"), Ok(Color::rgb(51, 179, 51)));
}

#[test]
fn hwb_grey_when_whiteness_and_blackness_fill() {
    assert_eq!(parse_hwb("hwb(200, 60%, 60%)"), Ok(Color::rgb(128, 128, 128)));
    assert_eq!(parse_hwb("hwb(0, 100%, 0%)"), Ok(Color::rgb(255, 255, 255)));
}

#[test]
fn hwb_hue_wraps_modulo_360() {
    assert_eq!(parse_hwb("hwb(480, 20%, 30%)"), parse_hwb("hwb(120, 20%, 30%)"));
    assert_eq!(parse_hwb("hwb(1200, 20%, 30%)"), parse_hwb("hwb(120, 20%, 30%)"));
}

#[test]
fn hwb_range_error() {
    assert_eq!(
        parse_hwb("hwb(0, 120%, 0%)"),
        error("Whiteness and blackness must lie between 0% and 100%")
    );
}

#[test]
fn hwb_writes_whole_degrees_and_percents() {
    assert_eq!(format_hwb(Color::rgb(51, 179, 51)), "hwb(120, 20%, 30%)");
    assert_eq!(format_hwb(Color::rgb(255, 255, 255)), "hwb(0, 100%, 0%)");
}

#[test]
fn dispatch_reaches_hsv_and_hwb() {
    let c = Color::rgb(51, 179, 51);
    let text = Notation::Hwb.as_str(c, AlphaPosition::Hidden, None).unwrap();
    assert_eq!(Notation::Hwb.parse(&text, AlphaPosition::Hidden, None), Ok(c));
    assert_eq!(
        Notation::Hsv.parse("hsv(0, 100%, 100%)", AlphaPosition::Leading, None),
        Ok(Color::rgb(255, 0, 0))
    );
}
