use deliveries::text::{
    concat2, is_blank, is_whitespace, join, parse_i64, render_i64, render_u64,
    trim,
};

#[test]
fn trim_removes_surrounding_white_space() {
    assert_eq!(trim("  00340434161234567890 \n"), "00340434161234567890");
    assert_eq!(trim("\u{3000}abc\u{a0}"), "abc");
    assert_eq!(trim(" a b "), "a b");
}

#[test]
fn trim_of_blank_is_empty() {
    assert_eq!(trim(" \t\r\n "), "");
    assert_eq!(trim(""), "");
}

#[test]
fn trim_agrees_with_std() {
    for s in ["", " x", "x ", "\u{2028}x\u{85}", "\u{200b}x", "  ", "ä ö "] {
        assert_eq!(trim(s), s.trim());
    }
}

#[test]
fn whitespace_matches_std() {
    for c in ['\t', '\n', ' ', '\u{a0}', '\u{1680}', '\u{2000}', '\u{200a}', '\u{3000}', 'a', '\u{200b}', '0'] {
        assert_eq!(is_whitespace(c), c.is_whitespace(), "{:?}", c);
    }
}

#[test]
fn blank_text() {
    assert!(is_blank("   "));
    assert!(is_blank(""));
    assert!(!is_blank(" Bonn "));
}

#[test]
fn render_numbers() {
    assert_eq!(render_u64(0), "0");
    assert_eq!(render_u64(1234567890), "1234567890");
    assert_eq!(render_u64(u64::MAX), u64::MAX.to_string());
    assert_eq!(render_i64(-42), "-42");
    assert_eq!(render_i64(i64::MIN), i64::MIN.to_string());
    assert_eq!(render_i64(i64::MAX), i64::MAX.to_string());
}

#[test]
fn parse_numbers_like_std() {
    for s in [
        "0", "+7", "-7", "1700000000", "1700000000000", "9223372036854775807",
        "9223372036854775808", "-9223372036854775808", "-9223372036854775809", "", "-", "+",
        "12a", " 12", "1.5", "007",
    ] {
        assert_eq!(parse_i64(s), s.parse::<i64>().ok(), "{:?}", s);
    }
}

#[test]
fn join_with_separator() {
    let parts = vec!["a".to_string(), "b".to_string(), "c".to_string()];
    assert_eq!(join(&parts, " - "), "a - b - c");
    assert_eq!(join(&Vec::new(), " - "), "");
    assert_eq!(join(&vec!["x".to_string()], "; "), "x");
}

#[test]
fn concat_two() {
    assert_eq!(concat2("ab", "cd"), "abcd");
}

#[test]
fn decimal_round_trip() {
    for x in [0i64, 7, 100_000_000_001, 1_700_000_000_000, i64::MAX] {
        assert_eq!(parse_i64(&render_i64(x)), Some(x));
    }
}
