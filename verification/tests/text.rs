use readdeck::text::{chars_of, is_whitespace, joined, push_decimal, push_int, same_text, split_chars, string_of, trimmed};

#[test]
fn trimming_removes_surrounding_whitespace_only() {
    assert_eq!(trimmed("  Lagos \t\n"), "Lagos");
    assert_eq!(trimmed("Ikeja GRA"), "Ikeja GRA");
    assert_eq!(trimmed("   "), "");
    assert_eq!(trimmed(""), "");
    assert_eq!(trimmed("\u{3000}Abuja\u{a0}"), "Abuja");
}

#[test]
fn splitting_keeps_empty_pieces() {
    let v = chars_of("a;;b;");
    let parts: Vec<String> = split_chars(&v, ';').iter().map(|p| string_of(p)).collect();
    assert_eq!(parts, vec!["a", "", "b", ""]);
    let none: Vec<Vec<char>> = split_chars(&Vec::new(), ';');
    assert_eq!(none.len(), 1);
}

#[test]
fn whitespace_class_follows_unicode() {
    for c in ['\t', '\n', '\u{0B}', '\u{0C}', '\r', ' ', '\u{85}', '\u{A0}', '\u{1680}', '\u{2000}', '\u{200A}', '\u{2028}', '\u{2029}', '\u{202F}', '\u{205F}', '\u{3000}'] {
        assert!(is_whitespace(c));
        assert_eq!(is_whitespace(c), c.is_whitespace());
    }
    for c in ['a', '0', '\u{08}', '\u{0E}', '\u{200B}', '\u{FEFF}', '\u{1F}', '-'] {
        assert!(!is_whitespace(c));
        assert_eq!(is_whitespace(c), c.is_whitespace());
    }
    assert_eq!(trimmed("\u{3000}\u{A0}Abuja\u{2029}"), "Abuja");
}

#[test]
fn text_equality_is_exact() {
    assert!(same_text("pending", "pending"));
    assert!(!same_text("pending", "Pending"));
}

#[test]
fn decimal_rendering_matches_display() {
    for n in [0i64, 7, 10, 42, -1, -305, i64::MAX, i64::MIN] {
        let mut s = String::new();
        push_int(&mut s, n);
        assert_eq!(s, n.to_string());
    }
    let mut s = "x".to_string();
    push_decimal(&mut s, u64::MAX);
    assert_eq!(s, format!("x{}", u64::MAX));
}

#[test]
fn joining_two_strings() {
    assert_eq!(joined("user:", "42"), "user:42");
}
