use plinth::parser::parse_hex_color;
use plinth::{Color, CssParseError, CssParser};

fn rgba(r: u8, g: u8, b: u8, a: u8) -> Color {
    Color::from_rgba(r, g, b, a)
}

#[test]
fn hex_color_parses() {
    assert_eq!(CssParser::parse_color_from_css("#ff6b35").unwrap(), rgba(255, 107, 53, 255));
}

#[test]
fn hex_color_is_case_insensitive() {
    assert_eq!(CssParser::parse_color_from_css("#FF6B35").unwrap(), rgba(255, 107, 53, 255));
    assert_eq!(CssParser::parse_color_from_css("#4eCdC4").unwrap(), rgba(0x4e, 0xcd, 0xc4, 255));
}

#[test]
fn surrounding_whitespace_is_trimmed() {
    assert_eq!(CssParser::parse_color_from_css("  #ff6b35\n").unwrap(), rgba(255, 107, 53, 255));
    assert_eq!(CssParser::parse_color_from_css(" rgb(1,2,3) ").unwrap(), rgba(1, 2, 3, 255));
}

#[test]
fn rgb_parses_with_opaque_alpha() {
    assert_eq!(CssParser::parse_color_from_css("rgb(10,20,30)").unwrap(), rgba(10, 20, 30, 255));
}

#[test]
fn rgb_allows_spaces_around_channels() {
    assert_eq!(CssParser::parse_color_from_css("rgb( 10 , 20 , 30 )").unwrap(), rgba(10, 20, 30, 255));
    assert_eq!(CssParser::parse_color_from_css("rgb(255, 0, 7)").unwrap(), rgba(255, 0, 7, 255));
}

#[test]
fn rgba_half_alpha_rounds_up() {
    assert_eq!(CssParser::parse_color_from_css("rgba(10,20,30,0.5)").unwrap(), rgba(10, 20, 30, 128));
}

#[test]
fn rgba_alpha_rounds_to_nearest() {
    // 0.25 * 255 = 63.75
    assert_eq!(CssParser::parse_color_from_css("rgba(1, 2, 3, .25)").unwrap().a, 64);
    // 0.002 * 255 = 0.51
    assert_eq!(CssParser::parse_color_from_css("rgba(1, 2, 3, 0.002)").unwrap().a, 1);
    // 0.001 * 255 = 0.255
    assert_eq!(CssParser::parse_color_from_css("rgba(1, 2, 3, 0.001)").unwrap().a, 0);
    assert_eq!(CssParser::parse_color_from_css("rgba(1, 2, 3, 0.99999999999999999999)").unwrap().a, 255);
    assert_eq!(CssParser::parse_color_from_css("rgba(1, 2, 3, 1)").unwrap().a, 255);
    assert_eq!(CssParser::parse_color_from_css("rgba(1, 2, 3, 0)").unwrap().a, 0);
    assert_eq!(CssParser::parse_color_from_css("rgba(1, 2, 3, 1.)").unwrap().a, 255);
}

#[test]
fn rgba_alpha_outside_unit_range_is_rejected() {
    for text in ["rgba(1, 2, 3, 2)", "rgba(1, 2, 3, 1.5)", "rgba(1, 2, 3, 1.0001)", "rgba(1, 2, 3, 20)", "rgba(1, 2, 3, 10)", "rgba(1, 2, 3, -0.2)"] {
        assert!(
            matches!(CssParser::parse_color_from_css(text), Err(CssParseError::InvalidColor(_))),
            "{}",
            text
        );
    }
    assert_eq!(CssParser::parse_color_from_css("rgba(1, 2, 3, 001.000)").unwrap().a, 255);
    assert_eq!(CssParser::parse_color_from_css("rgba(1, 2, 3, +0.5)").unwrap().a, 128);
}

#[test]
fn each_function_name_takes_its_own_count() {
    assert!(matches!(CssParser::parse_color_from_css("rgba(10,20,30)"), Err(CssParseError::InvalidColor(_))));
    assert!(matches!(CssParser::parse_color_from_css("rgb(10,20,30,0.5)"), Err(CssParseError::InvalidColor(_))));
    assert_eq!(CssParser::parse_color_from_css("rgba(10,20,30,1)").unwrap(), rgba(10, 20, 30, 255));
}

#[test]
fn unsupported_syntax_is_reported_with_its_text() {
    match CssParser::parse_color_from_css("not-a-color") {
        Err(CssParseError::UnsupportedFormat(m)) => assert_eq!(m, "not-a-color"),
        other => panic!("unexpected {:?}", other),
    }
    assert!(matches!(CssParser::parse_color_from_css(""), Err(CssParseError::UnsupportedFormat(_))));
    assert!(matches!(CssParser::parse_color_from_css("red"), Err(CssParseError::UnsupportedFormat(_))));
}

#[test]
fn malformed_hex_is_invalid() {
    match CssParser::parse_color_from_css("#fff") {
        Err(CssParseError::InvalidColor(m)) => assert_eq!(m, "#fff"),
        other => panic!("unexpected {:?}", other),
    }
    assert!(matches!(CssParser::parse_color_from_css("#12345g"), Err(CssParseError::InvalidColor(_))));
    assert!(matches!(CssParser::parse_color_from_css("#ff6b3500"), Err(CssParseError::InvalidColor(_))));
    assert!(matches!(CssParser::parse_color_from_css("#+f+f+f"), Err(CssParseError::InvalidColor(_))));
}

#[test]
fn malformed_rgb_is_invalid() {
    for text in [
        "rgb(256,0,0)",
        "rgb(1,2)",
        "rgb(1,2,3,4,5)",
        "rgb(1,2,3",
        "rgb(1,,3)",
        "rgb(+1,2,3)",
        "rgb(1.5,2,3)",
        "rgba(1,2,3,abc)",
        "rgba(1,2,3,.)",
        "rgba(1,2,3,0.5.5)",
        "rgba(1,2,3,1e0)",
        "#a\u{e9}123",
        "rgb()",
    ] {
        assert!(
            matches!(CssParser::parse_color_from_css(text), Err(CssParseError::InvalidColor(_))),
            "{}",
            text
        );
    }
}

#[test]
fn channels_allow_leading_zeros() {
    assert_eq!(CssParser::parse_color_from_css("rgb(0010,000255,0)").unwrap(), rgba(10, 255, 0, 255));
}

#[test]
fn from_hex_splits_channels() {
    assert_eq!(Color::from_hex(0xFF6B35), rgba(255, 107, 53, 255));
    assert_eq!(Color::from_hex(0x12_4ECDC4), rgba(0x4e, 0xcd, 0xc4, 255));
}

#[test]
fn parse_color_bytes_matches_parser() {
    assert_eq!(plinth::parser::parse_color_bytes(b"#000000"), Some(rgba(0, 0, 0, 255)));
    assert_eq!(plinth::parser::parse_color_bytes(b"bogus"), None);
}

#[test]
fn bare_hex_with_or_without_hash() {
    assert_eq!(parse_hex_color("#ff6b35"), Some(rgba(255, 107, 53, 255)));
    assert_eq!(parse_hex_color("4ECDC4"), Some(rgba(0x4e, 0xcd, 0xc4, 255)));
    assert_eq!(parse_hex_color("##45b7d1"), Some(rgba(0x45, 0xb7, 0xd1, 255)));
    assert_eq!(parse_hex_color("#fff"), None);
    assert_eq!(parse_hex_color("#ff6b3g"), None);
    assert_eq!(parse_hex_color(""), None);
}
