use phpmailer_rs::text::{append_decimal, join_strings, same_text, starts_with, trimmed_end};

#[test]
fn joins_with_separator() {
    assert_eq!(join_strings(&vec![], ", "), "");
    assert_eq!(join_strings(&vec!["a".to_string()], ", "), "a");
    assert_eq!(join_strings(&vec!["a".to_string(), "b".to_string(), "c".to_string()], ", "), "a, b, c");
}

#[test]
fn decimal_notation() {
    for n in [0u64, 7, 10, 1234, u64::MAX] {
        let mut s = String::from("n=");
        append_decimal(&mut s, n);
        assert_eq!(s, format!("n={}", n));
    }
}

#[test]
fn prefixes_and_equality() {
    assert!(starts_with("250 OK", "250"));
    assert!(!starts_with("25", "250"));
    assert!(!starts_with("251 OK", "250"));
    assert!(starts_with("é", ""));
    assert!(same_text("smtp", "smtp"));
    assert!(!same_text("smtp", "smtps"));
}

#[test]
fn trims_unicode_whitespace_at_the_end() {
    assert_eq!(trimmed_end("a b \t\r\n"), "a b");
    assert_eq!(trimmed_end("x\u{3000}\u{a0}"), "x");
    assert_eq!(trimmed_end(" lead"), " lead");
    for s in ["", " ", "abc\u{2028}", "q\u{85}\u{200a}z  "] {
        assert_eq!(trimmed_end(s), s.trim_end());
    }
}
