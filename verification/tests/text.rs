//! The text helpers against the standard library.

use rs_sc::text::{
    decimal_string, is_whitespace, lower_char, take_chars, to_ascii_lowercase, trim, trim_end,
    trim_start,
};

#[test]
fn white_space_is_the_unicode_property() {
    for c in '\0'..=char::MAX {
        assert_eq!(is_whitespace(c), c.is_whitespace(), "{:?}", c);
    }
}

#[test]
fn small_letters_are_those_of_ascii() {
    for c in '\0'..=char::MAX {
        assert_eq!(lower_char(c), c.to_ascii_lowercase());
    }
    assert_eq!(to_ascii_lowercase("Ctrl+Ä+T"), "ctrl+Ä+t");
}

#[test]
fn trimming_takes_off_both_ends() {
    for s in ["", " ", "a", " a b\u{3000}", "\t\n中 文\u{85}", "x ", " x"] {
        assert_eq!(trim(s), s.trim());
        assert_eq!(trim_start(s), s.trim_start());
        assert_eq!(trim_end(s), s.trim_end());
        assert_eq!(trim(trim(s)), trim(s));
    }
}

#[test]
fn first_characters_are_counted_as_characters() {
    assert_eq!(take_chars("中文abc", 3), "中文a");
    assert_eq!(take_chars("中文", 3), "中文");
    assert_eq!(take_chars("中文", 0), "");
}

#[test]
fn numbers_are_written_in_decimal() {
    for n in [0u64, 7, 10, 200, 404, 65535, u64::MAX] {
        assert_eq!(decimal_string(n), n.to_string());
    }
}
