use llm_call::text::{
    chars_of, decimal_text, eq_ignore_ascii_case, is_whitespace, precedes, same_text,
    to_ascii_lowercase, trim,
};

#[test]
fn white_space_is_that_of_unicode() {
    for code in 0..=0x10FFFFu32 {
        if let Some(c) = char::from_u32(code) {
            assert_eq!(is_whitespace(c), c.is_whitespace(), "{code:x}");
        }
    }
}

#[test]
fn trimming() {
    for s in ["", " ", "a", " a ", "\t\n a b \u{2003}", "\u{feff}a", "\u{85}\u{a0}x\u{205f}y\u{3000}"] {
        assert_eq!(trim(s), s.trim());
    }
}

#[test]
fn ascii_case() {
    for s in ["", "OpenAI", "\u{c9}T\u{c9} [Z@A{", "azAZ09"] {
        assert_eq!(to_ascii_lowercase(s), s.to_ascii_lowercase());
    }
    assert!(eq_ignore_ascii_case("SKILL.md", "skill.MD"));
    assert!(!eq_ignore_ascii_case("SKILL.md", "SKILLS.md"));
    assert!(!eq_ignore_ascii_case("\u{c9}", "\u{e9}"));
}

#[test]
fn order_is_that_of_str() {
    let words = ["", "a", "ab", "b", "B", "\u{e9}", "\u{1f600}", "\u{ffff}", "a\u{0}"];
    for a in words {
        for b in words {
            assert_eq!(precedes(a, b), a < b);
            assert_eq!(same_text(a, b), a == b);
        }
    }
}

#[test]
fn decimal_numbers() {
    for n in [0, 7, 9, 10, 99, 100, 4096, u32::MAX as u64, u64::MAX] {
        assert_eq!(decimal_text(n), format!("{n}"));
    }
}

#[test]
fn characters() {
    assert_eq!(chars_of("a\u{e9}\u{1f600}"), vec!['a', '\u{e9}', '\u{1f600}']);
}
