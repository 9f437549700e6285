use murmur::text::{
    chars_of, comes_before, contains, decimal, ends_with, find, has_char, has_control, is_blank,
    is_control, is_whitespace, same, trim, trim_end_matches,
};

#[test]
fn character_classes_are_those_of_unicode() {
    for u in 0..=0x10ffffu32 {
        if let Some(c) = char::from_u32(u) {
            assert_eq!(is_whitespace(c), c.is_whitespace(), "{u:x}");
            assert_eq!(is_control(c), c.is_control(), "{u:x}");
        }
    }
}

#[test]
fn trimming_agrees_with_the_standard_library() {
    for s in ["", " ", "a", " a", "a ", "\t a b \n", "\u{2003}é\u{a0}", "\u{200b}x"] {
        assert_eq!(trim(s), s.trim());
        assert_eq!(is_blank(s), s.trim().is_empty());
    }
    assert_eq!(trim_end_matches("Done.;…", ".;…"), "Done");
    assert_eq!(trim_end_matches("...", "."), "");
    assert_eq!(trim_end_matches("a.b", "."), "a.b");
}

#[test]
fn searching_agrees_with_the_standard_library() {
    for s in ["", "a", "abcabc", "ünïcödé", "aab", "ab·c"] {
        for p in ["", "a", "ab", "abc", "ï", "b·", "zz", "aab"] {
            assert_eq!(contains(s, p), s.contains(p), "{s} {p}");
            assert_eq!(ends_with(s, p), s.ends_with(p), "{s} {p}");
            let chars = s.find(p).map(|at| s[..at].chars().count());
            assert_eq!(find(s, p), chars, "{s} {p}");
        }
        assert_eq!(chars_of(s), s.chars().collect::<Vec<char>>());
        assert_eq!(has_char(s, 'b'), s.contains('b'));
        assert_eq!(has_control(s), s.chars().any(char::is_control));
    }
    assert!(has_control("a\u{7f}"));
}

#[test]
fn equality_is_by_characters() {
    assert!(same("", ""));
    assert!(same("é", "é"));
    assert!(!same("é", "e\u{301}"));
    assert!(!same("ab", "abc"));
    assert!(!same("abc", "abd"));
}

#[test]
fn numbers_are_written_in_decimal() {
    for n in [0, 7, 9, 10, 11, 99, 100, 48_000, u64::MAX] {
        assert_eq!(decimal(n), n.to_string());
    }
}

#[test]
fn the_order_of_texts_is_that_of_the_standard_library() {
    let texts = ["", "a", "aa", "ab", "b", "id:10", "id:2", "serial:1", "é", "\u{ffff}", "👋"];
    for a in texts {
        for b in texts {
            assert_eq!(comes_before(a, b), a < b, "{a} {b}");
        }
    }
}
