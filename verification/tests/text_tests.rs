use conduwuit_core::text::{format_u64, parse_u64, str_contains, str_ends_with, str_starts_with};

#[test]
fn parse_u64_accepts_digits_and_plus() {
    assert_eq!(parse_u64("0"), Some(0));
    assert_eq!(parse_u64("42"), Some(42));
    assert_eq!(parse_u64("+7"), Some(7));
    assert_eq!(parse_u64("18446744073709551615"), Some(u64::MAX));
}

#[test]
fn parse_u64_rejects_what_str_parse_rejects() {
    assert_eq!(parse_u64(""), None);
    assert_eq!(parse_u64("+"), None);
    assert_eq!(parse_u64("-1"), None);
    assert_eq!(parse_u64("1a"), None);
    assert_eq!(parse_u64(" 1"), None);
    assert_eq!(parse_u64("18446744073709551616"), None);
}

#[test]
fn parse_u64_agrees_with_std() {
    for s in ["12", "+0", "007", "abc", "99999999999999999999", "", "+", "1 "] {
        assert_eq!(parse_u64(s), s.parse::<u64>().ok(), "{}", s);
    }
}

#[test]
fn format_parse_round_trip() {
    for n in [0u64, 1, 9, 10, 123456789, u64::MAX] {
        let s = format_u64(n);
        assert_eq!(s, n.to_string());
        assert_eq!(parse_u64(&s), Some(n));
    }
}

#[test]
fn substring_helpers() {
    assert!(str_contains("hello world", "o w"));
    assert!(!str_contains("hello", "hello!"));
    assert!(str_contains("abc", ""));
    assert!(str_starts_with("mxc://x", "mxc://"));
    assert!(str_ends_with("module.so", ".so"));
    assert!(!str_ends_with("so", ".so"));
}
