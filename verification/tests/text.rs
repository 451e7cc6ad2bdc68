use agent_core::text::{
    contains, is_white_space, join, same_ignoring_ascii_case, starts_with, to_ascii_lower, trim,
};

#[test]
fn white_space_is_what_unicode_says() {
    for code in 0..=0x10ffff_u32 {
        if let Some(c) = char::from_u32(code) {
            assert_eq!(is_white_space(c), c.is_whitespace(), "{code:x}");
        }
    }
}

#[test]
fn trimming_takes_white_space_off_both_ends() {
    assert_eq!(trim("\u{3000} a b\t\r\n"), "a b");
    assert_eq!(trim(" \n"), "");
    assert_eq!(trim("a"), "a");
}

#[test]
fn searching_finds_text_anywhere() {
    assert!(contains("abcabd", "abd"));
    assert!(contains("abc", ""));
    assert!(!contains("ab", "abc"));
    assert!(starts_with("Network.x", "Network."));
    assert!(!starts_with("Networ", "Network."));
}

#[test]
fn ascii_case_is_ignored_and_other_case_is_not() {
    assert_eq!(to_ascii_lower("ABCxyzÄ"), "abcxyzÄ");
    assert!(same_ignoring_ascii_case("GET", "get"));
    assert!(!same_ignoring_ascii_case("Ä", "ä"));
}

#[test]
fn joining_puts_the_separator_between() {
    let parts = vec!["a".to_string(), "b".to_string(), "c".to_string()];
    assert_eq!(join(&parts, ", "), "a, b, c");
    assert_eq!(join(&Vec::new(), ", "), "");
}
