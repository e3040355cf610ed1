use gpam::numbers::{i64_text, parse_i64, u64_text};
use gpam::offsets::{next_char_boundary, prev_char_boundary};
use gpam::text::{
    before, contains, eq_ignore_ascii_case, is_blank, join, last_piece, pad_right, spaces, split,
    split_once, strip_prefix, trim, truncate, white_space, zero_pad,
};

#[test]
fn white_space_is_that_of_std() {
    for n in 0..0x11_0000u32 {
        if let Some(c) = char::from_u32(n) {
            assert_eq!(white_space(c), c.is_whitespace(), "{n:x}");
        }
    }
}

#[test]
fn texts_are_trimmed_and_split() {
    for s in ["", " ", " a b ", "\u{a0}x\u{3000}", "\t\n\u{b}y", "\u{200b}z"] {
        assert_eq!(trim(s), s.trim());
        assert_eq!(is_blank(s), s.trim().is_empty());
    }
    for s in ["", "/", "a", "a/b", "/a//b/", "\u{e9}/\u{1f600}"] {
        let expected: Vec<&str> = s.split('/').collect();
        assert_eq!(split(s, '/'), expected);
        assert_eq!(Some(last_piece(s, '/')), s.rsplit('/').next());
        assert_eq!(split_once(s, '/'), s.split_once('/'));
    }
    assert_eq!(strip_prefix("folders/7", "folders/"), Some("7"));
    assert_eq!(strip_prefix("folder", "folders/"), None);
    assert_eq!(strip_prefix("\u{e9}a", "\u{e9}"), Some("a"));
}

#[test]
fn texts_are_compared() {
    assert!(contains("abcabd", "abd"));
    assert!(contains("a", ""));
    assert!(!contains("ab", "abc"));
    assert!(eq_ignore_ascii_case("CoRe", "cOrE"));
    assert!(!eq_ignore_ascii_case("\u{c9}", "\u{e9}"));
    for a in ["", "a", "ab", "b", "\u{e9}", "\u{ffff}", "\u{10000}"] {
        for b in ["", "a", "ab", "b", "\u{e9}", "\u{ffff}", "\u{10000}"] {
            assert_eq!(before(a, b), a < b);
        }
    }
}

#[test]
fn texts_are_padded_and_cut() {
    assert_eq!(spaces(3), "   ");
    for s in ["", "ab", "abcdef", "\u{e9}\u{e8}"] {
        assert_eq!(pad_right(s, 4), format!("{s:<4}"));
        assert_eq!(zero_pad(s, 4), format!("{s:0>4}"));
    }
    assert_eq!(truncate("abc", 3), "abc");
    assert_eq!(truncate("abcd", 3), "ab~");
    assert_eq!(truncate("\u{e9}\u{e9}\u{e9}", 2), "\u{e9}~");
    assert_eq!(truncate("a", 0), "~");
    assert_eq!(truncate("", 0), "");
    assert_eq!(truncate(&truncate("abcd", 3), 3), "ab~");
    assert_eq!(join(&vec!["a".into(), "".into(), "b".into()], ", "), "a, , b");
    assert_eq!(join(&vec![], ", "), "");
}

#[test]
fn numbers_read_back() {
    for n in [0, 7, 10, -1, -10, 1234567890, i64::MAX, i64::MIN] {
        assert_eq!(i64_text(n), format!("{n}"));
        assert_eq!(parse_i64(&i64_text(n)), Some(n));
    }
    assert_eq!(u64_text(u64::MAX), "18446744073709551615");
    for s in ["", "+", "-", "+5", "-0", "007", "5 ", "1_0", "\u{661}", "9223372036854775808",
              "-9223372036854775808", "-9223372036854775809", "99999999999999999999999999999999999999999"] {
        assert_eq!(parse_i64(s), s.parse::<i64>().ok(), "{s}");
    }
}

#[test]
fn boundaries_are_those_of_characters() {
    let s = "a\u{e9}\u{1f600}b";
    assert_eq!(next_char_boundary(s, 0), 1);
    assert_eq!(next_char_boundary(s, 1), 3);
    assert_eq!(next_char_boundary(s, 3), 7);
    assert_eq!(prev_char_boundary(s, 8), 7);
    assert_eq!(prev_char_boundary(s, 7), 3);
    assert_eq!(prev_char_boundary(s, 3), 1);
}
