use ninja::text::{
    join, lines, parse_i64, replace, str_byte_len, str_contains,
    str_ends_with, str_equal, str_starts_with, strip_prefix, strip_suffix, trim,
    u64_to_decimal,
};

#[test]
fn decimal_rendering() {
    assert_eq!(u64_to_decimal(0), "0");
    assert_eq!(u64_to_decimal(7), "7");
    assert_eq!(u64_to_decimal(1234567890), "1234567890");
    assert_eq!(u64_to_decimal(u64::MAX), u64::MAX.to_string());
}

#[test]
fn searching() {
    assert!(str_contains("hello world", "o w"));
    assert!(!str_contains("hello", "world"));
    assert!(str_contains("abc", ""));
    assert!(str_starts_with("prefix-rest", "prefix"));
    assert!(!str_starts_with("pre", "prefix"));
    assert!(str_ends_with("file.pyc", ".pyc"));
    assert!(!str_ends_with("file.py", ".pyc"));
    assert!(str_equal("same", "same"));
    assert!(!str_equal("same", "sam"));
}

#[test]
fn byte_length_counts_utf8_bytes() {
    assert_eq!(str_byte_len("abc"), 3);
    assert_eq!(str_byte_len("é"), 2);
    assert_eq!(str_byte_len(""), 0);
}

#[test]
fn joining_and_concatenating() {
    let v = vec!["a".to_string(), "b".to_string(), "c".to_string()];
    assert_eq!(join(&v, ", "), "a, b, c");
    assert_eq!(join(&Vec::new(), ","), "");
    assert_eq!(ninja::text::concat("ab", "cd"), "abcd");
}

#[test]
fn stripping_and_replacing() {
    assert_eq!(strip_prefix("```python\nx", "```python"), Some("\nx".to_string()));
    assert_eq!(strip_prefix("x", "```"), None);
    assert_eq!(strip_suffix("code```", "```"), Some("code".to_string()));
    assert_eq!(strip_suffix("code", "```"), None);
    assert_eq!(replace("it's a 'b'", "'", "''"), "it''s a ''b''");
    assert_eq!(replace("main.py", ".py", ""), "main");
}

#[test]
fn trimming_white_space() {
    assert_eq!(trim("  \t code \n"), "code");
    assert_eq!(trim("   "), "");
    assert_eq!(trim("a b"), "a b");
}

#[test]
fn splitting_lines() {
    assert_eq!(lines("a\nb\r\nc"), vec!["a", "b", "c"]);
    assert_eq!(lines("a\n\nb\n"), vec!["a", "", "b"]);
    assert_eq!(lines(""), Vec::<String>::new());
}

#[test]
fn parsing_integers() {
    assert_eq!(parse_i64("42"), Some(42));
    assert_eq!(parse_i64("-7"), Some(-7));
    assert_eq!(parse_i64("+5"), Some(5));
    assert_eq!(parse_i64(""), None);
    assert_eq!(parse_i64("1.5"), None);
    assert_eq!(parse_i64("9223372036854775807"), Some(i64::MAX));
    assert_eq!(parse_i64("9223372036854775808"), None);
    assert_eq!(parse_i64("-9223372036854775808"), Some(i64::MIN));
}
