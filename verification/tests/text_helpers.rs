//! Text helpers and messages.
use whispercli::error::add_context;
use whispercli::json::escape;
use whispercli::text::{
    comes_before, decimal, drop_overlap, ends_with, ends_with_space, flatten_lines, join, pad_right,
    same_text, starts_with_space, trim_leading_separators, two_digits,
};

#[test]
fn numbers_in_decimal() {
    assert_eq!(decimal(0), "0");
    assert_eq!(decimal(9), "9");
    assert_eq!(decimal(10), "10");
    assert_eq!(decimal(1203), "1203");
    assert_eq!(decimal(u64::MAX), "18446744073709551615");
}

#[test]
fn two_digits_at_least() {
    assert_eq!(two_digits(0), "00");
    assert_eq!(two_digits(7), "07");
    assert_eq!(two_digits(42), "42");
    assert_eq!(two_digits(123), "123");
}

#[test]
fn padding_counts_characters() {
    assert_eq!(pad_right("ab", 4), "ab  ");
    assert_eq!(pad_right("日本", 3), "日本 ");
    assert_eq!(pad_right("abcd", 2), "abcd");
}

#[test]
fn parts_are_joined() {
    assert_eq!(join(&vec![], ", "), "");
    assert_eq!(join(&vec!["a"], ", "), "a");
    assert_eq!(join(&vec!["a", "", "c"], ", "), "a, , c");
}

#[test]
fn leading_separators_are_dropped() {
    assert_eq!(trim_leading_separators("/\\a/"), "a/");
    assert_eq!(trim_leading_separators(""), "");
    assert_eq!(trim_leading_separators("日/"), "日/");
}

#[test]
fn endings() {
    assert!(ends_with("こんにちは", "ちは"));
    assert!(ends_with("abc", ""));
    assert!(ends_with("abc", "abc"));
    assert!(!ends_with("abc", "xabc"));
    assert!(!ends_with("abc", "ab"));
}

#[test]
fn texts_are_compared_by_their_characters() {
    assert!(same_text("a", "a"));
    assert!(!same_text("a", "A"));
    assert!(!same_text("a", "a "));
}

#[test]
fn context_goes_in_front() {
    assert_eq!(add_context("Failed to read x", "gone"), "Failed to read x: gone");
}

#[test]
fn overlaps_are_dropped() {
    assert_eq!(drop_overlap("hello world", "world again"), " again");
    assert_eq!(drop_overlap("one two one two", "one two one"), " one");
    assert_eq!(drop_overlap("say a", "a b"), " b");
    assert_eq!(drop_overlap("one", "two"), "two");
    assert_eq!(drop_overlap("", "two"), "two");
    assert_eq!(drop_overlap("a longer text", "text"), "");
    assert_eq!(drop_overlap("こんにちは", "ちは世界"), "ちは世界");
    assert_eq!(drop_overlap("こんにちは", "にちは世界"), "世界");
    assert_eq!(drop_overlap("xx-abcdefghi", "abcdefghijk"), "jk");
    assert_eq!(drop_overlap("xx-abcdefgh", "abcdefghijk"), "abcdefghijk");
}

#[test]
fn letters_in_common_are_no_overlap() {
    assert_eq!(drop_overlap("banana", "apple"), "apple");
    assert_eq!(drop_overlap("a", "apple"), "apple");
    assert_eq!(drop_overlap("です", "すみません"), "すみません");
}

#[test]
fn order_of_texts() {
    assert!(comes_before("00:05", "59:58"));
    assert!(!comes_before("59:58", "00:05"));
    assert!(!comes_before("a", "a"));
    assert!(comes_before("a", "ab"));
    assert!(!comes_before("ab", "a"));
    assert!(!comes_before("", ""));
}

#[test]
fn outer_white_space_is_seen() {
    assert!(starts_with_space("\u{3000}a"));
    assert!(!starts_with_space("a "));
    assert!(ends_with_space("a\n"));
    assert!(!ends_with_space(""));
}

#[test]
fn line_breaks_become_spaces() {
    assert_eq!(flatten_lines("a\nb\r\nc"), "a b  c");
    assert_eq!(flatten_lines("日本"), "日本");
}

#[test]
fn json_strings_are_escaped() {
    assert_eq!(escape("plain 日本"), "plain 日本");
    assert_eq!(escape("say \"hi\" \\ bye"), "say \\\"hi\\\" \\\\ bye");
    assert_eq!(escape("a\nb\u{1f}"), "a\\u000ab\\u001f");
}
