use jless_theme::color::{Color, ParseError};

#[test]
fn parse_default_literal() {
    assert_eq!(Color::from_str("default").unwrap(), Color::Default);
}

#[test]
fn parse_indexed() {
    assert_eq!(Color::from_str("C16(5)").unwrap(), Color::C16(5));
    assert_eq!(Color::from_str("C16(0)").unwrap(), Color::C16(0));
    assert_eq!(Color::from_str("C16(255)").unwrap(), Color::C16(255));
    assert_eq!(Color::from_str("C16(007)").unwrap(), Color::C16(7));
}

#[test]
fn parse_hex_with_prefix() {
    assert_eq!(Color::from_str("#ff00aa").unwrap(), Color::Hex(0xff00aa));
    assert_eq!(Color::from_str("#FF00AA").unwrap(), Color::Hex(0xff00aa));
    assert_eq!(Color::from_str("#000000").unwrap(), Color::Hex(0x000000));
}

#[test]
fn parse_bare_hex() {
    assert_eq!(Color::from_str("ff00aa").unwrap(), Color::Hex(0xff00aa));
    assert_eq!(Color::from_str("fff000").unwrap(), Color::Hex(0xfff000));
}

#[test]
fn indexed_out_of_range_is_invalid_indexed() {
    let r = Color::from_str("C16(300)");
    assert!(matches!(r, Err(ParseError::InvalidIndexed(ref t)) if t == "C16(300)"));
}

#[test]
fn indexed_non_numeric_is_invalid_indexed() {
    let r = Color::from_str("C16(abc)");
    assert!(matches!(r, Err(ParseError::InvalidIndexed(ref t)) if t == "C16(abc)"));
}

#[test]
fn indexed_empty_payload_is_invalid_indexed() {
    let r = Color::from_str("C16()");
    assert!(matches!(r, Err(ParseError::InvalidIndexed(_))));
}

#[test]
fn six_char_non_hex_is_invalid_hex() {
    let r = Color::from_str("zzzzzz");
    assert!(matches!(r, Err(ParseError::InvalidHex(ref t)) if t == "zzzzzz"));
}

#[test]
fn hash_prefixed_junk_is_invalid_hex() {
    let r = Color::from_str("#zzz");
    assert!(matches!(r, Err(ParseError::InvalidHex(_))));
    let r = Color::from_str("#ff00a");
    assert!(matches!(r, Err(ParseError::InvalidHex(_))));
}

#[test]
fn unrecognized_shape_is_unknown_format() {
    let r = Color::from_str("notacolor!");
    assert!(matches!(r, Err(ParseError::UnknownFormat(ref t)) if t == "notacolor!"));
    let r = Color::from_str("");
    assert!(matches!(r, Err(ParseError::UnknownFormat(_))));
    let r = Color::from_str("red");
    assert!(matches!(r, Err(ParseError::UnknownFormat(_))));
}

#[test]
fn indexed_trims_repeated_delimiters() {
    // trim_start_matches / trim_end_matches semantics: every leading
    // "C16(" and every trailing ')' is stripped before the digits parse
    assert_eq!(Color::from_str("C16(5))").unwrap(), Color::C16(5));
    assert_eq!(Color::from_str("C16(C16(5)").unwrap(), Color::C16(5));
}

#[test]
fn indexed_accepts_leading_plus() {
    // u8 decimal parsing admits one leading '+'
    assert_eq!(Color::from_str("C16(+5)").unwrap(), Color::C16(5));
    let r = Color::from_str("C16(+)");
    assert!(matches!(r, Err(ParseError::InvalidIndexed(_))));
}
