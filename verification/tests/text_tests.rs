use craig::commands::decimal_string;
use craig::text::{chars_of, collapse_whitespace, is_whitespace, parse_u64, replace_chars, string_of};

fn v(s: &str) -> Vec<char> {
    s.chars().collect()
}

#[test]
fn whitespace_matches_std() {
    for c in ['\t', '\n', '\u{b}', '\u{c}', '\r', ' ', '\u{85}', '\u{a0}', '\u{1680}', '\u{2000}', '\u{200a}', '\u{2028}', '\u{2029}', '\u{202f}', '\u{205f}', '\u{3000}'] {
        assert!(is_whitespace(c));
    }
    for n in 0u32..0x4000 {
        if let Some(c) = char::from_u32(n) {
            assert_eq!(is_whitespace(c), c.is_whitespace(), "{n:x}");
        }
    }
}

#[test]
fn chars_round_trip() {
    let s = "héllo ✓";
    assert_eq!(chars_of(s), v(s));
    assert_eq!(string_of(&v(s)), s);
}

#[test]
fn replace_like_std() {
    for (s, p, t) in [("aaa", "aa", "b"), ("abcabc", "bc", "X"), ("", "a", "b"), ("xyz", "q", "r"), ("<@1><@1>", "<@1>", " ")] {
        assert_eq!(string_of(&replace_chars(&v(s), &v(p), &v(t))), s.replace(p, t));
    }
}

#[test]
fn collapse_like_split_join() {
    for s in ["", "  ", "a", " a  b\tc\n", "\u{3000}x\u{a0}y "] {
        let expected = s.split_whitespace().collect::<Vec<_>>().join(" ");
        assert_eq!(string_of(&collapse_whitespace(&v(s))), expected);
    }
}

#[test]
fn parse_like_std() {
    for s in ["0", "12", "+5", "-5", "", "+", "18446744073709551615", "18446744073709551616", "99999999999999999999"] {
        assert_eq!(parse_u64(&v(s)), s.parse::<u64>().ok(), "{s}");
    }
}

#[test]
fn decimal_like_std() {
    for n in [0u128, 7, 10, 99, 100, 12345678901234567890, u128::MAX] {
        assert_eq!(decimal_string(n), n.to_string());
    }
}
