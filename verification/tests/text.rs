//! Texts, bytes and ordered names.

use octos_agent::bytes::{byte_length, truncate_utf8};
use octos_agent::json::{Fields, Json};
use octos_agent::text::{
    contains, debug_list, ends_with, join, lines, name_before, parse_number, signed_string, split,
    strip_prefix, trim, words,
};
use octos_agent::utf8::Utf8Validator;

fn texts(items: &[&str]) -> Vec<String> {
    items.iter().map(|i| i.to_string()).collect()
}

#[test]
fn lines_end_at_feeds() {
    assert_eq!(lines("a\r\nb\n\nc"), texts(&["a", "b", "", "c"]));
    assert_eq!(lines(""), Vec::<String>::new());
    assert_eq!(lines("a\n"), texts(&["a"]));
    assert_eq!(join(&lines("a\nb"), "\n"), "a\nb");
}

#[test]
fn white_space_is_cut_off() {
    assert_eq!(trim("\u{3000} a b\t\n"), "a b");
    assert_eq!(words("  one\u{a0}two  three "), texts(&["one", "two", "three"]));
}

#[test]
fn texts_are_searched() {
    assert!(contains("abcabd", "abd"));
    assert!(!contains("ab", "abc"));
    assert!(ends_with("main.rs", ".rs"));
    assert_eq!(strip_prefix("+added", "+").as_deref(), Some("added"));
    assert_eq!(strip_prefix("added", "+"), None);
    assert_eq!(split("a,,b", ','), texts(&["a", "", "b"]));
}

#[test]
fn numbers_are_read_up_to_their_bound() {
    assert_eq!(parse_number("42", 100), Some(42));
    assert_eq!(parse_number("+42", 100), Some(42));
    assert_eq!(parse_number("101", 100), None);
    assert_eq!(parse_number("", 100), None);
    assert_eq!(
        parse_number("18446744073709551615", u64::MAX),
        Some(u64::MAX)
    );
    assert_eq!(parse_number("18446744073709551616", u64::MAX), None);
    assert_eq!(signed_string(-7), "-7");
    assert_eq!(signed_string(i64::MIN), "-9223372036854775808");
}

#[test]
fn lists_are_shown_with_quotes_and_escapes() {
    assert_eq!(
        debug_list(&texts(&["a\"b", "c\n"]), 2),
        "[\"a\\\"b\", \"c\\n\"]"
    );
    assert_eq!(debug_list(&texts(&["a", "b"]), 1), "[\"a\"]");
}

#[test]
fn names_are_ordered_as_their_bytes_are() {
    assert!(name_before("a", "ab"));
    assert!(name_before("Z", "a"));
    assert!(!name_before("b", "a"));
    assert!(!name_before("a", "a"));
}

#[test]
fn texts_are_cut_between_characters() {
    assert_eq!(byte_length("é"), 2);
    assert_eq!(truncate_utf8("aéb", 2, "…"), "a…");
    assert_eq!(truncate_utf8("aéb", 3, "…"), "aé…");
    assert_eq!(truncate_utf8("aéb", 4, "…"), "aéb");
}

#[test]
fn a_character_may_come_in_pieces() {
    let mut validator = Utf8Validator::default();
    validator.push(&[0xe4]);
    validator.push(&[0xb8, 0x96]);
    assert!(validator.finish());
    let mut validator = Utf8Validator::default();
    validator.push(&[0xe4, 0xb8]);
    assert!(!validator.finish());
    let mut validator = Utf8Validator::default();
    validator.push(&[0xc0, 0xaf]);
    assert!(!validator.finish());
}

#[test]
fn members_are_put_and_taken_out() {
    let fields = Fields::new()
        .with("a", Json::Unsigned(1))
        .put("b", Json::Null)
        .put("a", Json::Unsigned(2));
    assert_eq!(fields.get("a").unwrap().as_unsigned(), Some(2));
    let fields = fields.without("b");
    assert!(fields.get("b").is_none());
    let value = fields.object();
    assert!(value.get("a").is_some());
    assert!(Json::Null.get("a").is_none());
}
