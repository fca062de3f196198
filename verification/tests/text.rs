use meetup_sync::text::{
    contains, decimal_string, parse_u64, replace_char, starts_with, take_chars, to_chars,
};

#[test]
fn to_chars_counts_characters_not_bytes() {
    assert_eq!(to_chars("a\u{2026}b"), vec!['a', '\u{2026}', 'b']);
    assert_eq!(to_chars(""), Vec::<char>::new());
}

#[test]
fn contains_finds_a_run_anywhere() {
    assert!(contains("see https://example.org/e/1 for more", "https://example.org/e/1"));
    assert!(contains("abc", "abc"));
    assert!(contains("abc", "a"));
    assert!(contains("abc", "c"));
    assert!(contains("aab", "ab"));
}

#[test]
fn contains_rejects_what_is_not_there() {
    assert!(!contains("abc", "abcd"));
    assert!(!contains("abc", "ac"));
    assert!(!contains("", "a"));
    assert!(!contains("https://example.org/e/1", "https://example.org/e/12"));
}

#[test]
fn contains_agrees_with_std() {
    let hays = ["", "a", "ab", "aba", "abab", "\u{e4}\u{f6}\u{fc}", "x\u{2026}y"];
    let needles = ["", "a", "b", "ab", "ba", "aba", "\u{f6}", "\u{2026}y", "z"];
    for hay in hays {
        for needle in needles {
            assert_eq!(contains(hay, needle), hay.contains(needle), "{:?} in {:?}", needle, hay);
        }
    }
}

#[test]
fn the_empty_string_occurs_everywhere() {
    assert!(contains("abc", ""));
    assert!(contains("", ""));
}

#[test]
fn starts_with_compares_the_head() {
    assert!(starts_with("Failed to parse response: x", "Failed to parse response"));
    assert!(starts_with("abc", ""));
    assert!(starts_with("abc", "abc"));
    assert!(!starts_with("abc", "abcd"));
    assert!(!starts_with("xabc", "abc"));
}

#[test]
fn take_chars_cuts_by_characters() {
    assert_eq!(take_chars("hello", 2), "he");
    assert_eq!(take_chars("hello", 5), "hello");
    assert_eq!(take_chars("hello", 9), "hello");
    assert_eq!(take_chars("hello", 0), "");
    assert_eq!(take_chars("\u{e4}\u{f6}\u{fc}", 2), "\u{e4}\u{f6}");
}

#[test]
fn replace_char_replaces_every_occurrence() {
    assert_eq!(replace_char("a+b+c", '+', ":00+"), "a:00+b:00+c");
    assert_eq!(replace_char("abc", '+', ":00+"), "abc");
    assert_eq!(replace_char("+", '+', ""), "");
    assert_eq!(replace_char("", '+', "x"), "");
    assert_eq!(replace_char("\u{e4}+\u{f6}", '+', "-"), "\u{e4}-\u{f6}");
}

#[test]
fn decimal_string_writes_without_leading_zeros() {
    assert_eq!(decimal_string(0), "0");
    assert_eq!(decimal_string(7), "7");
    assert_eq!(decimal_string(10), "10");
    assert_eq!(decimal_string(1234567890), "1234567890");
    assert_eq!(decimal_string(u64::MAX), "18446744073709551615");
}

#[test]
fn parse_u64_reads_decimal() {
    assert_eq!(parse_u64("0"), Some(0));
    assert_eq!(parse_u64("42"), Some(42));
    assert_eq!(parse_u64("007"), Some(7));
    assert_eq!(parse_u64("+5"), Some(5));
    assert_eq!(parse_u64("18446744073709551615"), Some(u64::MAX));
}

#[test]
fn parse_u64_rejects_what_is_no_number() {
    assert_eq!(parse_u64(""), None);
    assert_eq!(parse_u64("+"), None);
    assert_eq!(parse_u64("-1"), None);
    assert_eq!(parse_u64("12a"), None);
    assert_eq!(parse_u64(" 1"), None);
    assert_eq!(parse_u64("1 "), None);
    assert_eq!(parse_u64("++1"), None);
    assert_eq!(parse_u64("1_000"), None);
    assert_eq!(parse_u64("\u{663}"), None);
}

#[test]
fn parse_u64_rejects_what_does_not_fit() {
    assert_eq!(parse_u64("18446744073709551616"), None);
    assert_eq!(parse_u64("99999999999999999999999"), None);
    assert_eq!(parse_u64("184467440737095516150"), None);
}

#[test]
fn parse_u64_agrees_with_std() {
    let inputs = [
        "", "+", "-", "0", "+0", "-0", "00", "1", "+1", "18446744073709551615",
        "18446744073709551616", "1844674407370955161x", "x1", "1x", "١",
    ];
    for input in inputs {
        assert_eq!(parse_u64(input), input.parse::<u64>().ok(), "{:?}", input);
    }
}

#[test]
fn what_is_written_is_read_back() {
    for n in [0u64, 1, 9, 10, 99, 100, 175928847299117063, u64::MAX] {
        assert_eq!(parse_u64(&decimal_string(n)), Some(n));
        assert_eq!(decimal_string(n), n.to_string());
    }
}
