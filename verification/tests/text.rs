use rokind_reminder::text::{
    after_prefix, begins_with, chars_of, contains_text, decimal, is_ascii_alphanumeric,
    is_white_space, piece, same_opt_text, same_text, to_ascii_lowercase, trim, CharClass,
};

#[test]
fn white_space_is_unicode_white_space() {
    let mut n: u32 = 0;
    while n <= 0x10ffff {
        if let Some(c) = char::from_u32(n) {
            assert_eq!(is_white_space(c), c.is_whitespace(), "U+{:04X}", n);
            assert_eq!(is_ascii_alphanumeric(c), c.is_ascii_alphanumeric());
        }
        n += 1;
    }
}

#[test]
fn trim_agrees_with_the_standard_library() {
    let samples = [
        "", " ", "a", " a", "a ", "  a b  ", "\u{3000}会議\u{3000}", "\t\r\nx\u{a0}", "x\u{200b}",
        "\u{85}\u{2028}mid dle\u{2029}", "   ",
    ];
    for s in samples {
        assert_eq!(trim(s), s.trim());
        assert_eq!(trim(&trim(s)), s.trim());
    }
}

#[test]
fn lowercase_touches_ascii_letters_only() {
    assert_eq!(to_ascii_lowercase("INVALID_Grant ÄÖ 会議 Z"), "invalid_grant ÄÖ 会議 z");
    assert_eq!(to_ascii_lowercase(""), "");
}

#[test]
fn containment_and_prefixes() {
    assert!(contains_text("abcabd", "abd"));
    assert!(contains_text("abc", ""));
    assert!(contains_text("", ""));
    assert!(contains_text("会議室", "議"));
    assert!(!contains_text("abcabd", "abe"));
    assert!(!contains_text("ab", "abc"));
    assert!(begins_with("prefix-rest", "prefix-"));
    assert!(begins_with("x", ""));
    assert!(!begins_with("pre", "prefix"));
    assert_eq!(after_prefix("prefix-rest", "prefix-"), Some("rest".to_string()));
    assert_eq!(after_prefix("prefix-", "prefix-"), Some(String::new()));
    assert_eq!(after_prefix("rest", "prefix-"), None);
}

#[test]
fn text_comparison() {
    assert!(same_text("会議", "会議"));
    assert!(!same_text("a", "b"));
    assert!(!same_text("a", "ab"));
    assert!(same_opt_text(&None, &None));
    assert!(!same_opt_text(&Some(String::new()), &None));
    assert!(same_opt_text(&Some("x".to_string()), &Some("x".to_string())));
}

#[test]
fn decimal_notation() {
    for n in [0usize, 7, 9, 10, 99, 100, 65535, 1234567890, usize::MAX] {
        assert_eq!(decimal(n), n.to_string());
    }
}

#[test]
fn pieces_and_classes() {
    let v = chars_of("a会b");
    assert_eq!(v, vec!['a', '会', 'b']);
    assert_eq!(piece(&v, 1, 3), "会b");
    assert_eq!(piece(&v, 2, 2), "");
    assert!(CharClass::Closing.contains(']'));
    assert!(!CharClass::Closing.contains('/'));
    assert!(CharClass::Link.contains(']'));
    assert!(!CharClass::Link.contains('"'));
    assert!(!CharClass::Link.contains('\u{3000}'));
}
