use kwybars::text::{decimal_text, same_text, split_trimmed, strip_prefix_text, trim_text};

#[test]
fn decimal_notation() {
    assert_eq!(decimal_text(0), "0");
    assert_eq!(decimal_text(7), "7");
    assert_eq!(decimal_text(10), "10");
    assert_eq!(decimal_text(1000), "1000");
    assert_eq!(decimal_text(u64::MAX), u64::MAX.to_string());
    for n in [1u64, 9, 99, 100, 12345, 4294967296] {
        assert_eq!(decimal_text(n).parse::<u64>().unwrap(), n);
    }
}

#[test]
fn trimming_matches_std() {
    for s in ["", "  ", " a ", "\t\na b\r\n", "\u{3000}x\u{85}", "x", "\u{200b}y"] {
        assert_eq!(trim_text(s), s.trim());
    }
}

#[test]
fn splitting_keeps_trimmed_non_empty_pieces() {
    assert_eq!(split_trimmed("a; b ;;c;", ';'), vec!["a", "b", "c"]);
    assert_eq!(split_trimmed("", ';'), Vec::<String>::new());
    assert_eq!(split_trimmed("x", ';'), vec!["x"]);
}

#[test]
fn text_comparison_and_prefix() {
    assert!(same_text("abc", "abc"));
    assert!(!same_text("abc", "abd"));
    assert!(!same_text("ab", "abc"));
    assert_eq!(strip_prefix_text("--config=/x", "--config="), Some("/x".to_string()));
    assert_eq!(strip_prefix_text("--config=", "--config="), Some(String::new()));
    assert_eq!(strip_prefix_text("--conf", "--config="), None);
    assert_eq!(strip_prefix_text("-c", "--config="), None);
}

#[test]
fn white_space_agrees_with_std_for_every_char() {
    for code in 0u32..=0x10FFFF {
        if let Some(c) = char::from_u32(code) {
            let s = format!("{c}x{c}");
            assert_eq!(trim_text(&s), s.trim(), "char {code:#x}");
        }
    }
}

#[test]
fn split_entries_are_clean() {
    for line in ["a;;b", " ; x ;y;", ";;;", "1 ; 2 ;\t3\n", "\u{3000}z\u{3000};w"] {
        for token in split_trimmed(line, ';') {
            assert!(!token.is_empty());
            assert!(!token.contains(';'));
            assert_eq!(token.trim(), token);
        }
    }
}
