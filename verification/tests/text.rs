//! Text primitives, decimal integers and the order of names.

use gugu::decimal::{i64_to_string, parse_i64};
use gugu::order::comes_before;
use gugu::text::{chars_of, is_blank, str_eq, string_of};

#[test]
fn characters_make_up_the_string() {
    assert_eq!(chars_of("a行b"), ['a', '行', 'b']);
    assert_eq!(string_of(&vec!['a', '行', 'b']), "a行b");
    assert_eq!(string_of(&Vec::new()), "");
}

#[test]
fn equal_strings_are_told() {
    assert!(str_eq("", ""));
    assert!(str_eq("行a", "行a"));
    assert!(!str_eq("a", "b"));
    assert!(!str_eq("a", "aa"));
}

#[test]
fn blank_is_what_trim_leaves_empty() {
    for code in 0..=0x10FFFF_u32 {
        if let Some(c) = char::from_u32(code) {
            assert_eq!(is_blank(&c.to_string()), c.is_whitespace(), "{code:x}");
        }
    }
    for text in ["", " ", " \t\n", " a ", "a", "\u{3000}\u{3000}", "\u{3000}行"] {
        assert_eq!(is_blank(text), text.trim().is_empty(), "{text:?}");
    }
}

#[test]
fn integers_are_written_like_std() {
    for n in [0, 7, 10, -1, -10, 1234567890, i64::MAX, i64::MIN, i64::MIN + 1] {
        assert_eq!(i64_to_string(n), n.to_string());
        assert_eq!(parse_i64(&i64_to_string(n)), Some(n));
    }
}

#[test]
fn integers_are_read_like_std() {
    for text in [
        "", "-", "+", "0", "-0", "+5", "007", "12a", " 1", "1 ", "--1", "+-1", "１",
        "9223372036854775807", "9223372036854775808", "-9223372036854775808",
        "-9223372036854775809", "99999999999999999999", "00000000000000000000000001",
    ] {
        assert_eq!(parse_i64(text), text.parse::<i64>().ok(), "{text:?}");
    }
}

#[test]
fn names_are_ordered_like_std() {
    let names = ["", "a", "A", "ab", "b", "z.gif", "行", "é", "\u{FFFF}", "\u{10000}", "a.gif", "a1.gif"];
    for a in names {
        for b in names {
            assert_eq!(comes_before(a, b), a < b, "{a:?} {b:?}");
        }
    }
}
