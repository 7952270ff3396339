use aaoffline::text;
use aaoffline::text::{chars_of, decimal_string, ends_with, find_from, find_last, join};
use aaoffline::text::{parse_i64, parse_u32, replace_all, signed_decimal_string, slice, split};
use aaoffline::text::{starts_with, str_eq, string_of};

#[test]
fn decimal_of_numbers() {
    assert_eq!(decimal_string(0), "0");
    assert_eq!(decimal_string(7), "7");
    assert_eq!(decimal_string(120), "120");
    assert_eq!(decimal_string(u64::MAX), "18446744073709551615");
}

#[test]
fn signed_decimal_of_numbers() {
    assert_eq!(signed_decimal_string(0), "0");
    assert_eq!(signed_decimal_string(-1), "-1");
    assert_eq!(signed_decimal_string(42), "42");
    assert_eq!(signed_decimal_string(i64::MIN), "-9223372036854775808");
    assert_eq!(signed_decimal_string(i64::MAX), "9223372036854775807");
}

#[test]
fn parse_u32_takes_digits_only() {
    assert_eq!(parse_u32("0"), Some(0));
    assert_eq!(parse_u32("102059"), Some(102059));
    assert_eq!(parse_u32("4294967295"), Some(u32::MAX));
    assert_eq!(parse_u32("4294967296"), None);
    assert_eq!(parse_u32(""), None);
    assert_eq!(parse_u32("-1"), None);
    assert_eq!(parse_u32("12a"), None);
    assert_eq!(parse_u32(" 12"), None);
    assert_eq!(parse_u32("00012"), Some(12));
}

#[test]
fn parse_u32_agrees_with_std() {
    for text in ["+5", "5", "+", "99999999999999999999999", "0000000000000000000000001"] {
        assert_eq!(parse_u32(text), text.parse::<u32>().ok(), "{text}");
    }
}

#[test]
fn parse_i64_takes_a_sign() {
    assert_eq!(parse_i64("0"), Some(0));
    assert_eq!(parse_i64("-7"), Some(-7));
    assert_eq!(parse_i64("9223372036854775807"), Some(i64::MAX));
    assert_eq!(parse_i64("-9223372036854775808"), Some(i64::MIN));
    assert_eq!(parse_i64("9223372036854775808"), None);
    assert_eq!(parse_i64("-9223372036854775809"), None);
    assert_eq!(parse_i64("1.5"), None);
    assert_eq!(parse_i64("1e3"), None);
    assert_eq!(parse_i64("-"), None);
    assert_eq!(parse_i64(""), None);
}

#[test]
fn parse_i64_agrees_with_std() {
    for text in ["+5", "-0", "+", "--1", "007", "-007"] {
        assert_eq!(parse_i64(text), text.parse::<i64>().ok(), "{text}");
    }
}

#[test]
fn texts_are_compared_and_put_together() {
    assert!(str_eq("abc", "abc"));
    assert!(!str_eq("abc", "abd"));
    assert!(!str_eq("abc", "ab"));
    assert_eq!(text::concat("ab", "cd"), "abcd");
    assert_eq!(text::concat3("a", "", "c"), "ac");
    assert_eq!(string_of(&chars_of("héllo")), "héllo");
}

#[test]
fn prefixes_and_suffixes() {
    assert!(starts_with("http://a", "http://"));
    assert!(!starts_with("https://a", "http://"));
    assert!(starts_with("a", ""));
    assert!(!starts_with("", "a"));
    assert!(ends_with("file.png", ".png"));
    assert!(!ends_with("file.png", ".jpg"));
    assert!(!ends_with("g", "png"));
}

#[test]
fn first_and_last_occurrence() {
    let hay = chars_of("a/b/c/b");
    assert_eq!(find_from(&hay, &chars_of("b"), 0), Some(2));
    assert_eq!(find_from(&hay, &chars_of("b"), 3), Some(6));
    assert_eq!(find_from(&hay, &chars_of("x"), 0), None);
    assert_eq!(find_from(&hay, &chars_of("b"), 7), None);
    assert_eq!(find_last(&hay, &chars_of("/")), Some(5));
    assert_eq!(find_last(&hay, &chars_of("a")), Some(0));
    assert_eq!(find_last(&hay, &chars_of("x")), None);
}

#[test]
fn every_occurrence_is_replaced() {
    assert_eq!(replace_all("a\\/b\\/c", "\\/", "/"), "a/b/c");
    assert_eq!(replace_all("aaaa", "aa", "b"), "bb");
    assert_eq!(replace_all("abc", "x", "y"), "abc");
    assert_eq!(replace_all("", "x", "y"), "");
    assert_eq!(replace_all("~0~1", "~1", "/"), "~0/");
}

#[test]
fn parts_are_split_and_joined() {
    let parts = split(&chars_of("/a/b//c"), &chars_of("/"), 0);
    assert_eq!(parts, vec!["", "a", "b", "", "c"]);
    assert_eq!(split(&chars_of("abc"), &chars_of("/"), 0), vec!["abc"]);
    assert_eq!(split(&chars_of("abc"), &chars_of("/"), 3), vec![""]);
    assert_eq!(join(&vec!["a".to_string(), "b".to_string(), "c".to_string()], ", "), "a, b, c");
    assert_eq!(join(&vec!["a".to_string()], ", "), "a");
    assert_eq!(join(&Vec::new(), ", "), "");
}

#[test]
fn slices_lie_between_characters() {
    assert_eq!(slice("aéb", 0, 1), Some("a"));
    assert_eq!(slice("aéb", 1, 3), Some("é"));
    assert_eq!(slice("aéb", 1, 2), None);
    assert_eq!(slice("aéb", 2, 4), None);
    assert_eq!(slice("aéb", 3, 2), None);
    assert_eq!(slice("aéb", 0, 5), None);
    assert_eq!(slice("aéb", 4, 4), Some(""));
}
