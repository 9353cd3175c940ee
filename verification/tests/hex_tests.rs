use labcolors_core::hex::{format_hex, normalize_hex, parse_hex, HexError, Rgb8};

#[test]
fn parse_hex_accepts_upper_case() {
    assert_eq!(parse_hex("#787880"), Ok(Rgb8 { r: 0x78, g: 0x78, b: 0x80 }));
    assert_eq!(parse_hex("#FFFFFF"), Ok(Rgb8 { r: 255, g: 255, b: 255 }));
    assert_eq!(parse_hex("#007AFF"), Ok(Rgb8 { r: 0, g: 0x7A, b: 0xFF }));
}

#[test]
fn parse_hex_accepts_lower_case() {
    assert_eq!(parse_hex("#ffffff"), Ok(Rgb8 { r: 255, g: 255, b: 255 }));
    assert_eq!(parse_hex("#f6f7fa"), Ok(Rgb8 { r: 0xF6, g: 0xF7, b: 0xFA }));
    assert_eq!(parse_hex("#000000"), Ok(Rgb8 { r: 0, g: 0, b: 0 }));
}

#[test]
fn parse_hex_rejects_short_string() {
    assert_eq!(parse_hex("#fff"), Err(HexError::WrongLength));
    assert_eq!(parse_hex(""), Err(HexError::WrongLength));
    assert_eq!(parse_hex("#1234567"), Err(HexError::WrongLength));
}

#[test]
fn parse_hex_rejects_bad_digit() {
    assert_eq!(parse_hex("#GGGGGG"), Err(HexError::InvalidDigit));
    assert_eq!(parse_hex("#12345g"), Err(HexError::InvalidDigit));
    assert_eq!(parse_hex("# 12345"), Err(HexError::InvalidDigit));
}

#[test]
fn parse_hex_rejects_missing_hash() {
    assert_eq!(parse_hex("0787880"), Err(HexError::MissingHash));
    assert_eq!(parse_hex("x787880"), Err(HexError::MissingHash));
}

#[test]
fn parse_hex_counts_characters_not_bytes() {
    // Seven characters, the last one outside ASCII: a bad digit, not a bad length.
    assert_eq!(parse_hex("#12345é"), Err(HexError::InvalidDigit));
}

#[test]
fn format_hex_writes_upper_case() {
    assert_eq!(format_hex(Rgb8 { r: 0x78, g: 0x78, b: 0x80 }), "#787880");
    assert_eq!(format_hex(Rgb8 { r: 255, g: 255, b: 255 }), "#FFFFFF");
    assert_eq!(format_hex(Rgb8 { r: 0x10, g: 0x10, b: 0x12 }), "#101012");
    assert_eq!(format_hex(Rgb8 { r: 0, g: 0x7A, b: 0xFF }), "#007AFF");
    assert_eq!(format_hex(Rgb8 { r: 0, g: 0, b: 0 }), "#000000");
}

#[test]
fn format_then_parse_gives_back_the_colour() {
    for r in [0u8, 1, 15, 16, 127, 128, 200, 255] {
        for g in [0u8, 9, 10, 171, 255] {
            for b in [0u8, 0x7f, 0xa0, 0xff] {
                let c = Rgb8 { r, g, b };
                assert_eq!(parse_hex(&format_hex(c)), Ok(c));
            }
        }
    }
}

#[test]
fn parse_then_format_is_upper_case_input() {
    for s in ["#ffffff", "#f6f7fa", "#007AFF", "#cc8888", "#34c759", "#FF9500"] {
        let c = parse_hex(s).unwrap();
        assert_eq!(format_hex(c), s.to_ascii_uppercase());
    }
}

#[test]
fn parse_ignores_case() {
    assert_eq!(parse_hex("#ff3b30"), parse_hex("#FF3B30"));
    assert_eq!(parse_hex("#ggg"), parse_hex("#GGG"));
    assert_eq!(parse_hex("#gggggg"), parse_hex("#GGGGGG"));
}

#[test]
fn normalize_hex_upper_cases() {
    assert_eq!(normalize_hex("#007aff"), Ok("#007AFF".to_string()));
    assert_eq!(normalize_hex("#FF0000"), Ok("#FF0000".to_string()));
    assert_eq!(normalize_hex("#cc8888"), Ok("#CC8888".to_string()));
}

#[test]
fn normalize_hex_reports_errors() {
    assert_eq!(normalize_hex("#GGGGGG"), Err(HexError::InvalidDigit));
    assert_eq!(normalize_hex("#fff"), Err(HexError::WrongLength));
    assert_eq!(normalize_hex("0000000"), Err(HexError::MissingHash));
}
