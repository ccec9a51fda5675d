use client_rust::text::{
    begins_with, chars_of, decimal_of, fields, has, is_white, lines_with_ends, lowercase_ascii,
    parse_u64, replaced_char, same, signed_decimal_of, string_of, substring, trimmed,
};

#[test]
fn white_space_is_what_unicode_says() {
    for n in 0..0x11_0000u32 {
        if let Some(c) = char::from_u32(n) {
            assert_eq!(is_white(c), c.is_whitespace(), "U+{n:04X}");
        }
    }
}

#[test]
fn trimming_leaves_the_middle() {
    for s in ["", " ", "\u{3000}a b\t\r\n", "a", "\n \u{a0}x", "no"] {
        assert_eq!(trimmed(s), s.trim());
    }
}

#[test]
fn finding_text() {
    for (s, needle) in [("", ""), ("abc", ""), ("abc", "bc"), ("abc", "cb"), ("aab", "ab"), ("", "a")] {
        assert_eq!(has(s, needle), s.contains(needle));
        assert_eq!(begins_with(s, needle), s.starts_with(needle));
    }
    assert!(same("\u{5c0f}", "\u{5c0f}"));
    assert!(!same("a", "b") && !same("a", "ab"));
}

#[test]
fn splitting_text() {
    for s in ["", "@", "a@b", "1@__STARTED__", "a@@b@", "plain"] {
        assert_eq!(fields(s, '@'), s.split('@').collect::<Vec<_>>());
    }
    for s in ["", "\n", "a", "a\n", "a\nb", "a\n\nb\n", "\r\nx"] {
        assert_eq!(lines_with_ends(s), s.split_inclusive('\n').collect::<Vec<_>>());
    }
}

#[test]
fn changing_text() {
    assert_eq!(lowercase_ascii("AbZ[\u{c4}9"), "abz[\u{c4}9");
    assert_eq!(replaced_char("a\nb\n", '\n', "\\n"), "a\\nb\\n");
    assert_eq!(string_of(&chars_of("h\u{e9}")), "h\u{e9}");
    assert_eq!(substring(&chars_of("h\u{e9}llo"), 1, 3), "\u{e9}l");
}

#[test]
fn numbers_as_text() {
    for n in [0, 9, 10, 255, 1000, u64::MAX] {
        assert_eq!(decimal_of(n), n.to_string());
    }
    for n in [0, -1, 42, i64::MAX, i64::MIN] {
        assert_eq!(signed_decimal_of(n), n.to_string());
    }
}

#[test]
fn numbers_out_of_text() {
    for s in [
        "", "+", "-", "-1", "0", "+7", "007", "1 ", "12a", "18446744073709551615",
        "18446744073709551616", "99999999999999999999999", "\u{661}",
    ] {
        assert_eq!(parse_u64(s), s.parse::<u64>().ok(), "{s}");
    }
}
