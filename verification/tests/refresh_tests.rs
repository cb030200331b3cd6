use pad_merger::refresh::{parse_refresh_rate, read_refresh_rate};

#[test]
fn parse_plain_numbers() {
    assert_eq!(parse_refresh_rate("10".to_string()), 10);
    assert_eq!(parse_refresh_rate("42".to_string()), 42);
    assert_eq!(parse_refresh_rate("0".to_string()), 0);
    assert_eq!(parse_refresh_rate("007".to_string()), 7);
}

#[test]
fn parse_trims_whitespace() {
    assert_eq!(parse_refresh_rate("  42  ".to_string()), 42);
    assert_eq!(parse_refresh_rate("\t7\n".to_string()), 7);
    assert_eq!(parse_refresh_rate("\u{3000}5\u{2000}".to_string()), 5);
    assert_eq!(parse_refresh_rate("\r\n16\r\n".to_string()), 16);
}

#[test]
fn parse_accepts_leading_plus() {
    assert_eq!(parse_refresh_rate("+7".to_string()), 7);
    assert_eq!(parse_refresh_rate(" +120 ".to_string()), 120);
}

#[test]
fn parse_defaults_on_unparsable_text() {
    assert_eq!(parse_refresh_rate("".to_string()), 10);
    assert_eq!(parse_refresh_rate("   ".to_string()), 10);
    assert_eq!(parse_refresh_rate("abc".to_string()), 10);
    assert_eq!(parse_refresh_rate("-3".to_string()), 10);
    assert_eq!(parse_refresh_rate("1 2".to_string()), 10);
    assert_eq!(parse_refresh_rate("99x".to_string()), 10);
    assert_eq!(parse_refresh_rate("+".to_string()), 10);
    assert_eq!(parse_refresh_rate("++5".to_string()), 10);
    assert_eq!(parse_refresh_rate("5.0".to_string()), 10);
}

#[test]
fn parse_matches_standard_parse() {
    for text in ["33", " 4 ", "+0", "x", "-1", "  ", "18446744073709551615"] {
        let expected = text.trim().parse::<u64>().unwrap_or(10);
        assert_eq!(parse_refresh_rate(text.to_string()), expected);
    }
}

#[test]
fn parse_respects_the_64_bit_range() {
    assert_eq!(parse_refresh_rate("18446744073709551615".to_string()), u64::MAX);
    assert_eq!(parse_refresh_rate("18446744073709551616".to_string()), 10);
    assert_eq!(parse_refresh_rate("99999999999999999999999".to_string()), 10);
}

#[test]
fn missing_argument_defaults() {
    assert_eq!(read_refresh_rate(None), 10);
}

#[test]
fn present_argument_is_parsed() {
    assert_eq!(read_refresh_rate(Some("25".to_string())), 25);
    assert_eq!(read_refresh_rate(Some("junk".to_string())), 10);
}
