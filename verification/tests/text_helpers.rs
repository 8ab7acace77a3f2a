use raven_news::text::{
    i64_to_decimal, is_blank, join_strings, parse_i64, parse_u64, parse_usize, str_equal, trim,
    u64_to_decimal, usize_to_decimal,
};

#[test]
fn trimming_follows_unicode_whitespace() {
    assert_eq!(trim("  a b \t\n"), "a b");
    assert_eq!(trim("\u{2003}x\u{85}"), "x");
    assert_eq!(trim(""), "");
    assert_eq!(trim("   "), "");
    assert!(is_blank(" \u{3000} "));
    assert!(!is_blank(" x "));
}

#[test]
fn decimal_rendering() {
    assert_eq!(u64_to_decimal(0), "0");
    assert_eq!(u64_to_decimal(u64::MAX), "18446744073709551615");
    assert_eq!(usize_to_decimal(120), "120");
    assert_eq!(i64_to_decimal(-7), "-7");
    assert_eq!(i64_to_decimal(i64::MIN), "-9223372036854775808");
    assert_eq!(i64_to_decimal(i64::MAX), "9223372036854775807");
}

#[test]
fn decimal_parsing_matches_std() {
    for s in ["0", "+7", "-7", "", "+", "-", "12a", "007", "18446744073709551615", "18446744073709551616", "-0", "9223372036854775808", "-9223372036854775808", "-9223372036854775809", " 1"] {
        assert_eq!(parse_u64(s), s.parse::<u64>().ok(), "u64 {s:?}");
        assert_eq!(parse_usize(s), s.parse::<usize>().ok(), "usize {s:?}");
        assert_eq!(parse_i64(s), s.parse::<i64>().ok(), "i64 {s:?}");
    }
}

#[test]
fn string_comparison_and_join() {
    assert!(str_equal("é", "é"));
    assert!(!str_equal("a", "ab"));
    let parts = vec!["x".to_string(), "y".to_string(), "z".to_string()];
    assert_eq!(join_strings(&parts, ", "), "x, y, z");
    assert_eq!(join_strings(&vec![], ", "), "");
}
