use zanop::text::{
    chars_of, concat_str, decimal_string, is_whitespace, padded_string, parse_i64,
    signed_decimal_string, split_at_space, split_lines, split_words, str_eq, trim_string,
};

fn chars(s: &str) -> Vec<char> {
    s.chars().collect()
}

#[test]
fn trims_unicode_whitespace() {
    assert_eq!(trim_string("  hi there \t\n"), "hi there");
    assert_eq!(trim_string("\u{3000}x\u{a0}"), "x");
    assert_eq!(trim_string("   "), "");
    assert_eq!(trim_string(""), "");
}

#[test]
fn whitespace_property() {
    assert!(is_whitespace(' '));
    assert!(is_whitespace('\n'));
    assert!(is_whitespace('\u{2009}'));
    assert!(!is_whitespace('a'));
    assert!(!is_whitespace('\u{200b}'));
}

#[test]
fn splits_at_first_space() {
    assert_eq!(split_at_space("cre file a b"), ("cre".to_string(), "file a b".to_string()));
    assert_eq!(split_at_space("con"), ("con".to_string(), String::new()));
    assert_eq!(split_at_space(""), (String::new(), String::new()));
    assert_eq!(split_at_space(" x"), (String::new(), "x".to_string()));
}

#[test]
fn parses_i64_like_std() {
    assert_eq!(parse_i64(&chars("42")), Some(42));
    assert_eq!(parse_i64(&chars("+7")), Some(7));
    assert_eq!(parse_i64(&chars("-0")), Some(0));
    assert_eq!(parse_i64(&chars("-9223372036854775808")), Some(i64::MIN));
    assert_eq!(parse_i64(&chars("9223372036854775807")), Some(i64::MAX));
    assert_eq!(parse_i64(&chars("9223372036854775808")), None);
    assert_eq!(parse_i64(&chars("-")), None);
    assert_eq!(parse_i64(&chars("")), None);
    assert_eq!(parse_i64(&chars("1a")), None);
    assert_eq!(parse_i64(&chars("99999999999999999999999999999999999999999")), None);
}

#[test]
fn splits_words_and_lines() {
    let w = split_words(&chars("  12 +\t4  "));
    assert_eq!(w, vec![chars("12"), chars("+"), chars("4")]);
    assert!(split_words(&chars("   ")).is_empty());
    assert_eq!(split_lines("a\nb\r\n"), vec!["a".to_string(), "b".to_string()]);
    assert!(split_lines("").is_empty());
}

#[test]
fn formats_numbers() {
    assert_eq!(decimal_string(0), "0");
    assert_eq!(decimal_string(1234567890123), "1234567890123");
    assert_eq!(decimal_string(u64::MAX), "18446744073709551615");
    assert_eq!(signed_decimal_string(-42), "-42");
    assert_eq!(signed_decimal_string(i64::MIN), "-9223372036854775808");
    assert_eq!(padded_string(7, 2), "07");
    assert_eq!(padded_string(2024, 4), "2024");
    assert_eq!(padded_string(123, 2), "123");
}

#[test]
fn compares_and_joins_strings() {
    assert!(str_eq("abc", "abc"));
    assert!(!str_eq("abc", "abd"));
    assert!(!str_eq("ab", "abc"));
    assert_eq!(concat_str("ab", "cd"), "abcd");
    assert_eq!(chars_of("héllo"), chars("héllo"));
}
