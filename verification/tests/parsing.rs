use puree_cli::error::Error;
use puree_cli::text::{join_comma, parse_i32, parse_i64, str_contains, str_eq, str_eq_ci, str_lt};

#[test]
fn parse_plain_integers() {
    assert_eq!(parse_i32("0").unwrap(), 0);
    assert_eq!(parse_i32("42").unwrap(), 42);
    assert_eq!(parse_i32("-7").unwrap(), -7);
    assert_eq!(parse_i32("+9").unwrap(), 9);
    assert_eq!(parse_i64("1000").unwrap(), 1000);
    assert_eq!(parse_i64("-9223372036854775808").unwrap(), i64::MIN);
    assert_eq!(parse_i64("9223372036854775807").unwrap(), i64::MAX);
}

#[test]
fn parse_rejects_malformed_text() {
    assert!(matches!(parse_i32(""), Err(Error::Parse)));
    assert!(matches!(parse_i32("-"), Err(Error::Parse)));
    assert!(matches!(parse_i32("12a"), Err(Error::Parse)));
    assert!(matches!(parse_i32(" 1"), Err(Error::Parse)));
    assert!(matches!(parse_i64("1.5"), Err(Error::Parse)));
    assert!(matches!(parse_i64("--3"), Err(Error::Parse)));
}

#[test]
fn parse_rejects_out_of_range_values() {
    assert!(matches!(parse_i32("2147483648"), Err(Error::Parse)));
    assert_eq!(parse_i32("2147483647").unwrap(), i32::MAX);
    assert_eq!(parse_i32("-2147483648").unwrap(), i32::MIN);
    assert!(matches!(parse_i32("-2147483649"), Err(Error::Parse)));
    assert!(matches!(parse_i64("9223372036854775808"), Err(Error::Parse)));
    assert!(matches!(parse_i64("99999999999999999999999"), Err(Error::Parse)));
}

#[test]
fn string_equality_and_search() {
    assert!(str_eq("abc", "abc"));
    assert!(!str_eq("abc", "abd"));
    assert!(!str_eq("abc", "ab"));
    assert!(str_contains("hello world", "lo wo"));
    assert!(str_contains("hello", ""));
    assert!(!str_contains("hello", "world"));
    assert!(!str_contains("ab", "abc"));
}

#[test]
fn case_insensitive_equality() {
    assert!(str_eq_ci("Word Police", "word police"));
    assert!(str_eq_ci("TESTLANDIA", "testlandia"));
    assert!(!str_eq_ci("alpha", "beta"));
}

#[test]
fn lexicographic_order() {
    assert!(str_lt("a", "b"));
    assert!(str_lt("a", "ab"));
    assert!(!str_lt("b", "a"));
    assert!(!str_lt("a", "a"));
    assert!(str_lt("Z", "a"));
}

#[test]
fn joining_tags() {
    let empty: Vec<String> = Vec::new();
    assert_eq!(join_comma(&empty), "");
    let one = vec!["WFE".to_string()];
    assert_eq!(join_comma(&one), "WFE");
    let two = vec!["ABC".to_string(), "WFE".to_string()];
    assert_eq!(join_comma(&two), "ABC, WFE");
}

#[test]
fn error_descriptions() {
    assert_eq!(Error::Parse.describe(), "could not parse integer");
    assert_eq!(Error::Utf8.describe(), "invalid UTF-8 input");
    assert_eq!(Error::Xml("boom".to_string()).describe(), "could not parse XML");
    let e = Error::Builder { field: "population", model: "region" };
    assert_eq!(e.describe(), "missing field population from model region");
}
