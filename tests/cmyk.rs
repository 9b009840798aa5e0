use color_notation::cmyk::{format_cmyk, parse_cmyk};
use color_notation::color::{AlphaPosition, Color, ColorError};
use color_notation::notation::Notation;

#[test]
fn cmyk_reads_exact_values() {
    assert_eq!(parse_cmyk("cmyk(0%, 100%, 100%, 0%)"), Ok(Color::rgb(255, 0, 0)));
    assert_eq!(parse_cmyk("cmyk(0%,0%,0%,50%)"), Ok(Color::rgb(128, 128, 128)));
    assert_eq!(parse_cmyk(" cmyk( 20% , 40% , 60% , 10% ) "), Ok(Color::rgb(184, 138, 92)));
}

#[test]
fn cmyk_errors() {
    assert_eq!(
        parse_cmyk("cmyk(0%, 0%, 0%, 101%)"),
        Err(ColorError::ParsingError(
            "Cyan, magenta, yellow and key must lie between 0% and 100%".to_string()
        ))
    );
    assert_eq!(
        parse_cmyk("cmyk(0%, 0%, 0%)"),
        Err(ColorError::ParsingError("Invalid cmyk color".to_string()))
    );
}

#[test]
fn cmyk_writes_whole_percents_without_alpha() {
    assert_eq!(format_cmyk(Color::rgb(255, 0, 0)), "cmyk(0%, 100%, 100%, 0%)");
    assert_eq!(format_cmyk(Color::rgb(0, 0, 0)), "cmyk(0%, 0%, 0%, 100%)");
    assert_eq!(
        Notation::Cmyk.as_str(Color::rgba(184, 138, 92, 7), AlphaPosition::Trailing, None),
        Some("cmyk(0%, 25%, 50%, 28%)".to_string())
    );
}
