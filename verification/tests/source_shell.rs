//! Shell quoting.

use droidlog::source::shell::{is_bare_safe, join, quote};

#[test]
fn safe_words_are_left_alone() {
    assert!(is_bare_safe("logcat"));
    assert!(is_bare_safe("--pid=1234"));
    assert!(is_bare_safe("main,system,crash"));
    assert_eq!(quote("logcat -v threadtime"), "'logcat -v threadtime'");
    assert_eq!(quote("ActivityManager"), "ActivityManager");
}

#[test]
fn spaces_and_metacharacters_are_quoted() {
    assert_eq!(quote("My Tag"), "'My Tag'");
    assert_eq!(quote("a;rm -rf /"), "'a;rm -rf /'");
    assert_eq!(quote("$(id)"), "'$(id)'");
    assert_eq!(quote("`id`"), "'`id`'");
    assert_eq!(quote("a|b"), "'a|b'");
    assert_eq!(quote("a&b"), "'a&b'");
}

#[test]
fn embedded_single_quotes_are_escaped() {
    assert_eq!(quote("it's"), "'it'\\''s'");
}

#[test]
fn empty_string_is_quoted() {
    assert!(!is_bare_safe(""));
    assert_eq!(quote(""), "''");
}

#[test]
fn join_quotes_selectively() {
    let args = vec!["logcat".to_owned(), "-s".to_owned(), "My Tag".to_owned()];
    assert_eq!(join(&args), "logcat -s 'My Tag'");
}
