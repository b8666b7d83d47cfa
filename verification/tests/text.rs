use volcano::text::{decimal_string, ends_with, replace, same_text};

#[test]
fn decimal_rendering() {
    assert_eq!(decimal_string(0), "0");
    assert_eq!(decimal_string(7), "7");
    assert_eq!(decimal_string(1234567890), "1234567890");
    assert_eq!(decimal_string(u64::MAX), "18446744073709551615");
}

#[test]
fn replacement_is_leftmost_and_non_overlapping() {
    assert_eq!(replace("aaa", "aa", "b"), "ba");
    assert_eq!(replace("{x}{x}", "{x}", "1"), "11");
    assert_eq!(replace("nothing", "{x}", "1"), "nothing");
    assert_eq!(replace("", "a", "b"), "");
    assert_eq!(replace("a", "aa", "b"), "a");
    assert_eq!(replace("xax", "a", ""), "xx");
}

#[test]
fn suffixes_and_equality() {
    assert!(ends_with("sink.monitor", ".monitor"));
    assert!(!ends_with("monitor", ".monitor"));
    assert!(ends_with("x", ""));
    assert!(same_text("ab", "ab"));
    assert!(!same_text("ab", "abc"));
}
