use nickelhardcover::{decimal, is_white_space, join, less_than, starts_with, trim};

#[test]
fn decimal_writes_integers() {
    assert_eq!(decimal(0), "0");
    assert_eq!(decimal(7), "7");
    assert_eq!(decimal(1234567), "1234567");
    assert_eq!(decimal(-42), "-42");
    assert_eq!(decimal(i64::MAX), "9223372036854775807");
    assert_eq!(decimal(i64::MIN), "-9223372036854775808");
}

#[test]
fn join_puts_separator_between_parts() {
    assert_eq!(join(&vec![], ", "), "");
    assert_eq!(join(&vec!["a".to_string()], ", "), "a");
    assert_eq!(join(&vec!["9780000000002".to_string(), "B00X".to_string()], ", "), "9780000000002, B00X");
}

#[test]
fn trim_removes_surrounding_white_space() {
    assert_eq!(trim("  a b \n\t"), "a b");
    assert_eq!(trim("\n\nHello"), "Hello");
    assert_eq!(trim("   "), "");
    assert_eq!(trim("\u{2003}x\u{00a0}"), "x");
    assert_eq!(trim("x"), "x");
}

#[test]
fn order_of_dates_is_lexicographic() {
    assert!(less_than("2024-01-01T00:00:00Z", "2024-02-01"));
    assert!(!less_than("2024-02-01", "2024-01-01"));
    assert!(!less_than("2024", "2024"));
    assert!(less_than("2024", "2024-01"));
    assert!(!less_than("2024-01", "2024"));
    assert!(less_than("", "a"));
}

#[test]
fn prefix_test() {
    assert!(starts_with("Bearer abc", "Bearer"));
    assert!(!starts_with("Bear", "Bearer"));
    assert!(starts_with("x", ""));
}

#[test]
fn white_space_is_the_unicode_set() {
    for c in (0u32..=0x10ffff).filter_map(char::from_u32) {
        assert_eq!(is_white_space(c), c.is_whitespace(), "{:x}", c as u32);
    }
    assert_eq!(trim("\u{85}\u{3000} x \u{2029}"), "x");
    assert_eq!(trim("\u{200b}x"), "\u{200b}x");
}
