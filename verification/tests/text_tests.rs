use trycli::text::{
    trim, trim_end_slashes, trim_start_slashes, str_eq, contains, starts_with, replace_spaces_with_plus,
    parse_u16, decimal_string, to_lowercase, chars_of, char_in_class, Strip,
};

#[test]
fn trim_removes_unicode_white_space() {
    assert_eq!(trim("  hello \t\n"), "hello");
    assert_eq!(trim("\u{3000}wide\u{a0}"), "wide");
    assert_eq!(trim("   "), "");
    assert_eq!(trim("a b"), "a b");
}

#[test]
fn slash_trimming() {
    assert_eq!(trim_end_slashes("/a/b//"), "/a/b");
    assert_eq!(trim_start_slashes("//name/"), "name/");
    assert_eq!(trim_end_slashes("///"), "");
}

#[test]
fn string_comparisons() {
    assert!(str_eq("abc", "abc"));
    assert!(!str_eq("abc", "abd"));
    assert!(!str_eq("abc", "ab"));
    assert!(contains("my-trycli-box", "trycli"));
    assert!(!contains("box", "trycli"));
    assert!(contains("x", ""));
    assert!(starts_with("https://a.b/c", "https://a.b"));
    assert!(!starts_with("https://a", "https://a.b"));
}

#[test]
fn spaces_become_plus() {
    assert_eq!(replace_spaces_with_plus("a b  c"), "a+b++c");
    assert_eq!(replace_spaces_with_plus("abc"), "abc");
}

#[test]
fn parse_u16_as_std_does() {
    assert_eq!(parse_u16("80"), Some(80));
    assert_eq!(parse_u16("+24"), Some(24));
    assert_eq!(parse_u16("0065535"), Some(65535));
    assert_eq!(parse_u16("65536"), None);
    assert_eq!(parse_u16(""), None);
    assert_eq!(parse_u16("+"), None);
    assert_eq!(parse_u16("-1"), None);
    assert_eq!(parse_u16("1 2"), None);
    for s in ["0", "7", "123", "65535", "99999", "+0", "12a"] {
        assert_eq!(parse_u16(s), s.parse::<u16>().ok());
    }
}

#[test]
fn decimal_string_writes_digits() {
    assert_eq!(decimal_string(0), "0");
    assert_eq!(decimal_string(1234567890), "1234567890");
    assert_eq!(decimal_string(u64::MAX), "18446744073709551615");
}

#[test]
fn to_lowercase_maps_unicode() {
    assert_eq!(to_lowercase("HeLLo-42"), "hello-42");
    assert_eq!(to_lowercase("ÄÖ"), "äö");
}

#[test]
fn chars_and_classes() {
    assert_eq!(chars_of("añb"), vec!['a', 'ñ', 'b']);
    assert!(char_in_class(Strip::Slash, '/'));
    assert!(!char_in_class(Strip::Slash, 'a'));
    assert!(char_in_class(Strip::WhiteSpace, '\u{2028}'));
    assert!(!char_in_class(Strip::WhiteSpace, 'x'));
}
