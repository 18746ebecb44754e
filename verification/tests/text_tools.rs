use ppproxy::text::{
    nth_token, parse_u32, parse_u64, str_contains, str_eq, str_has_prefix, str_lex_lt,
    u64_to_string,
};

#[test]
fn parse_u32_plain_numerals() {
    assert_eq!(parse_u32("0"), Some(0));
    assert_eq!(parse_u32("7"), Some(7));
    assert_eq!(parse_u32("4294967295"), Some(u32::MAX));
    assert_eq!(parse_u32("007"), Some(7));
}

#[test]
fn parse_u32_rejects_non_numerals() {
    assert_eq!(parse_u32(""), None);
    assert_eq!(parse_u32("4294967296"), None); // one past u32::MAX
    assert_eq!(parse_u32("-1"), None);
    assert_eq!(parse_u32("+1"), None);
    assert_eq!(parse_u32("12a"), None);
    assert_eq!(parse_u32("1 2"), None);
}

#[test]
fn parse_u64_bounds() {
    assert_eq!(parse_u64("18446744073709551615"), Some(u64::MAX));
    assert_eq!(parse_u64("18446744073709551616"), None);
    assert_eq!(parse_u64("99999999999999999999999"), None);
}

#[test]
fn u64_to_string_renders_decimals() {
    assert_eq!(u64_to_string(0), "0");
    assert_eq!(u64_to_string(7), "7");
    assert_eq!(u64_to_string(101), "101");
    assert_eq!(u64_to_string(86400), "86400");
    assert_eq!(u64_to_string(u64::MAX), "18446744073709551615");
}

#[test]
fn numeral_round_trip() {
    for n in [0u64, 1, 9, 10, 99, 100, 12345, 4294967295] {
        assert_eq!(parse_u64(&u64_to_string(n)), Some(n));
    }
}

#[test]
fn substring_search() {
    assert!(str_contains("local  IP address 1.2.3.4", "local  IP address"));
    assert!(str_contains("abc", ""));
    assert!(str_contains("abc", "abc"));
    assert!(!str_contains("ab", "abc"));
    assert!(!str_contains("local IP address", "local  IP address"));
    assert!(str_contains("xxabcxx", "abc"));
}

#[test]
fn token_extraction() {
    assert_eq!(nth_token("a b c d", 3), Some("d".to_string()));
    assert_eq!(nth_token("  spaced   out  tokens ", 2), Some("tokens".to_string()));
    assert_eq!(nth_token("a b", 2), None);
    assert_eq!(nth_token("", 0), None);
    assert_eq!(nth_token("one", 0), Some("one".to_string()));
}

#[test]
fn lexicographic_order() {
    assert!(str_lex_lt("abc", "abd"));
    assert!(str_lex_lt("ab", "abc"));
    assert!(!str_lex_lt("abc", "abc"));
    assert!(!str_lex_lt("b", "abc"));
    assert!(str_lex_lt("ppp0", "ppp1"));
    assert!(str_lex_lt("ppp1", "ppp10"));
}

#[test]
fn string_equality() {
    assert!(str_eq("ppp0", "ppp0"));
    assert!(!str_eq("ppp0", "ppp1"));
    assert!(!str_eq("ppp0", "ppp00"));
    assert!(str_eq("", ""));
}

#[test]
fn prefix_test() {
    assert!(str_has_prefix("ppp0", "ppp"));
    assert!(str_has_prefix("ppp0", ""));
    assert!(str_has_prefix("ppp0", "ppp0"));
    assert!(!str_has_prefix("ppp", "ppp0"));
    assert!(!str_has_prefix("xppp0", "ppp"));
}
