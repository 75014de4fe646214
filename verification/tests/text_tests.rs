use axum_admin::text::{
    clone_texts, contains_text, decimal_text, from_chars, replace_all, replace_first, split_char,
    starts_with, str_eq, to_chars,
};

#[test]
fn chars_round_trip() {
    let v = to_chars("a★b");
    assert_eq!(v, vec!['a', '★', 'b']);
    assert_eq!(from_chars(&v), "a★b");
}

#[test]
fn text_equality() {
    assert!(str_eq("system/user", "system/user"));
    assert!(!str_eq("system/user", "system/users"));
    assert!(str_eq("", ""));
}

#[test]
fn prefix_check() {
    assert!(starts_with("system/user★k", "system/user"));
    assert!(starts_with("abc", ""));
    assert!(!starts_with("ab", "abc"));
}

#[test]
fn replace_every_occurrence() {
    assert_eq!(replace_all("/upload/2023-01/a/upload", "/upload", "./data"), "./data/2023-01/a./data");
    assert_eq!(replace_all("aaaa", "aa", "b"), "bb");
    assert_eq!(replace_all("abc", "x", "y"), "abc");
    assert_eq!(replace_all("abc", "", "-"), "-a-b-c-");
    assert_eq!(replace_all("", "", "-"), "-");
}

#[test]
fn replace_only_the_first_occurrence() {
    assert_eq!(replace_first("/api/system/api/x", "/api/", ""), "system/api/x");
    assert_eq!(replace_first("abc", "x", "y"), "abc");
    assert_eq!(replace_first("abc", "", "-"), "-abc");
    assert_eq!(replace_first("xabab", "ab", "Z"), "xZab");
}

#[test]
fn split_at_separator() {
    assert_eq!(split_char("1,2,3", ','), vec!["1", "2", "3"]);
    assert_eq!(split_char("", ','), vec![""]);
    assert_eq!(split_char(",a,,", ','), vec!["", "a", "", ""]);
    assert_eq!(split_char("api★data", '★'), vec!["api", "data"]);
}

#[test]
fn decimal_texts() {
    assert_eq!(decimal_text(0), "0");
    assert_eq!(decimal_text(7), "7");
    assert_eq!(decimal_text(10), "10");
    assert_eq!(decimal_text(1234567890), "1234567890");
    assert_eq!(decimal_text(u64::MAX), "18446744073709551615");
}

#[test]
fn list_membership() {
    let v = vec!["a".to_string(), "bc".to_string()];
    assert!(contains_text(&v, "bc"));
    assert!(!contains_text(&v, "b"));
    assert!(!contains_text(&Vec::new(), "a"));
    assert_eq!(clone_texts(&v), v);
}
