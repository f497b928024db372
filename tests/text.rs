use browser_records::text::{contains_text, replace_text, same_text, strip_prefix, trim};

#[test]
fn trim_removes_unicode_whitespace() {
    assert_eq!(trim("  a b \t\n"), "a b");
    assert_eq!(trim("\u{3000}x\u{a0}"), "x");
    assert_eq!(trim("   "), "");
    assert_eq!(trim(""), "");
}

#[test]
fn strip_prefix_keeps_the_rest() {
    assert_eq!(strip_prefix("?hello", "?"), Some("hello"));
    assert_eq!(strip_prefix("hello", ""), Some("hello"));
    assert_eq!(strip_prefix("he", "hello"), None);
    assert_eq!(strip_prefix("üx", "ü"), Some("x"));
}

#[test]
fn replace_every_occurrence() {
    assert_eq!(replace_text("a{x}b{x}", "{x}", "Z"), "aZbZ");
    assert_eq!(replace_text("aaa", "aa", "b"), "ba");
    assert_eq!(replace_text("none", "{x}", "Z"), "none");
}

#[test]
fn contains_and_equality() {
    assert!(contains_text("abc.default", "default"));
    assert!(contains_text("abc", ""));
    assert!(!contains_text("abc", "abcd"));
    assert!(same_text("a", "a"));
    assert!(!same_text("a", "ab"));
}
