use color_notation::color::{AlphaPosition, Color, ColorError};
use color_notation::hex::{format_hex, parse_hex};
use color_notation::notation::Notation;
use color_notation::text::{is_white_space, same_text, trim};

fn error(message: &str) -> ColorError {
    ColorError::ParsingError(message.to_string())
}

#[test]
fn hex_formats_upper_case_with_fixed_width() {
    let c = Color::rgb(255, 10, 0);
    assert_eq!(format_hex(c, AlphaPosition::Hidden), "#FF0A00");
}

#[test]
fn hex_alpha_leading_is_first() {
    let c = Color::rgba(0x12, 0x34, 0x56, 0x78);
    assert_eq!(format_hex(c, AlphaPosition::Leading), "#78123456");
}

#[test]
fn hex_alpha_trailing_is_last() {
    let c = Color::rgba(0x12, 0x34, 0x56, 0x78);
    assert_eq!(format_hex(c, AlphaPosition::Trailing), "#12345678");
}

#[test]
fn hex_parse_reads_alpha_at_configured_position() {
    assert_eq!(
        parse_hex("#78123456", AlphaPosition::Leading),
        Ok(Color::rgba(0x12, 0x34, 0x56, 0x78))
    );
    assert_eq!(
        parse_hex("#78123456", AlphaPosition::Trailing),
        Ok(Color::rgba(0x78, 0x12, 0x34, 0x56))
    );
}

#[test]
fn hex_parse_refuses_alpha_when_hidden() {
    assert_eq!(
        parse_hex("#12345678", AlphaPosition::Hidden),
        Err(error("Invalid hex color code"))
    );
}

#[test]
fn hex_parse_short_form_and_case() {
    assert_eq!(parse_hex("#fA0", AlphaPosition::Hidden), Ok(Color::rgb(255, 170, 0)));
    assert_eq!(parse_hex("ff0a00", AlphaPosition::Hidden), Ok(Color::rgb(255, 10, 0)));
}

#[test]
fn hex_parse_rejects_malformed() {
    assert_eq!(parse_hex("#12345", AlphaPosition::Trailing), Err(error("Invalid hex color code")));
    assert_eq!(parse_hex("#12G456", AlphaPosition::Trailing), Err(error("Invalid hex color code")));
    assert_eq!(parse_hex("", AlphaPosition::Trailing), Err(error("Invalid hex color code")));
    assert_eq!(parse_hex("#", AlphaPosition::Leading), Err(error("Invalid hex color code")));
}

#[test]
fn hex_round_trip_every_position() {
    let c = Color::rgba(3, 200, 77, 128);
    for pos in [AlphaPosition::Leading, AlphaPosition::Trailing] {
        let text = Notation::Hex.as_str(c, pos, None).unwrap();
        assert_eq!(Notation::Hex.parse(&text, pos, None), Ok(c));
    }
    let opaque = Color::rgb(3, 200, 77);
    let text = Notation::Hex.as_str(opaque, AlphaPosition::Hidden, None).unwrap();
    assert_eq!(Notation::Hex.parse(&text, AlphaPosition::Hidden, None), Ok(opaque));
}

#[test]
fn hex_parse_ignores_surrounding_white_space() {
    assert_eq!(
        Notation::Hex.parse("  #00FF00\n", AlphaPosition::Hidden, None),
        Ok(Color::rgb(0, 255, 0))
    );
}

#[test]
fn label_is_case_insensitive() {
    assert_eq!(Notation::from_str("RGB"), Ok(Notation::Rgb));
    assert_eq!(Notation::from_str("rgb"), Ok(Notation::Rgb));
    assert_eq!(Notation::from_str("  CIELab "), Ok(Notation::Lab));
    assert_eq!(Notation::from_str("HunterLab"), Ok(Notation::HunterLab));
}

#[test]
fn label_unknown_is_error() {
    assert_eq!(Notation::from_str("cmy"), Err(error("Failed to get color notation")));
    assert_eq!(Notation::from_str(""), Err(error("Failed to get color notation")));
    assert_eq!(Notation::from_lowercase("HEX"), Err(error("Failed to get color notation")));
}

#[test]
fn label_round_trip_for_all_notations() {
    let all = Notation::all();
    assert_eq!(all.len(), 14);
    assert_eq!(all[0], Notation::Hex);
    for n in all {
        assert_eq!(Notation::from_str(n.label()), Ok(n));
        assert_eq!(Notation::from_lowercase(n.label()), Ok(n));
    }
}

#[test]
fn default_notation_is_hex() {
    assert_eq!(Notation::default(), Notation::Hex);
}

#[test]
fn name_miss_fails_to_parse() {
    assert_eq!(
        Notation::Name.parse("notacolorname", AlphaPosition::Hidden, None),
        Err(error("No name found"))
    );
}

#[test]
fn name_hit_parses() {
    let red = Color::rgb(255, 0, 0);
    assert_eq!(Notation::Name.parse("red", AlphaPosition::Hidden, Some(red)), Ok(red));
}

#[test]
fn name_miss_formats_placeholder() {
    let c = Color::rgb(1, 2, 3);
    assert_eq!(
        Notation::Name.as_str(c, AlphaPosition::Hidden, None),
        Some("Not named".to_string())
    );
    assert_eq!(
        Notation::Name.as_str(c, AlphaPosition::Hidden, Some("navy".to_string())),
        Some("navy".to_string())
    );
}

#[test]
fn notations_without_conversion_here() {
    let c = Color::rgb(1, 2, 3);
    assert_eq!(Notation::Lab.as_str(c, AlphaPosition::Hidden, None), None);
    assert_eq!(
        Notation::Oklch.parse("oklch(0.5 0.1 20)", AlphaPosition::Hidden, None),
        Err(error("Notation not supported"))
    );
}

#[test]
fn copy_labels() {
    assert_eq!(Notation::Hex.copy_label(), "Copy Hex Code");
    assert_eq!(Notation::Hcl.copy_label(), "Copy CIELCh / HCL");
    assert_eq!(Notation::Name.copy_label(), "Copy Name");
    let row = Notation::Oklch.widget();
    assert_eq!(row.notation, Notation::Oklch);
    assert_eq!(row.copy_label, "Copy Oklch");
}

#[test]
fn display_copy_string_is_the_untranslated_label() {
    assert_eq!(Notation::Rgb.display_copy_string(), "Copy RGB");
    assert_eq!(Notation::Lab.display_copy_string(), "Copy CIELAB");
}

#[test]
fn alpha_position_from_index() {
    assert_eq!(AlphaPosition::from_index(0), AlphaPosition::Hidden);
    assert_eq!(AlphaPosition::from_index(1), AlphaPosition::Leading);
    assert_eq!(AlphaPosition::from_index(2), AlphaPosition::Trailing);
    assert_eq!(AlphaPosition::from_index(9), AlphaPosition::Hidden);
}

#[test]
fn trim_and_compare_text() {
    assert_eq!(trim("\t hex \u{3000}"), "hex");
    assert_eq!(trim("   "), "");
    assert!(is_white_space('\u{a0}'));
    assert!(!is_white_space('x'));
    assert!(same_text("abc", "abc"));
    assert!(!same_text("abc", "abd"));
    assert!(!same_text("abc", "ab"));
}
