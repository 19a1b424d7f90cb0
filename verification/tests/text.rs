//! Text primitives, held against the standard library.

use mdya::order::{order_texts, Order};
use mdya::text::{
    ascii_lower, ascii_lowercase, control, decimal, from_chars, parse_i32, parse_u32, same_text,
    signed_decimal, starts_with, strip_prefix, to_chars, trim, utf8_width, white_space,
};

fn all_chars() -> impl Iterator<Item = char> {
    (0..=0x10_ffff_u32).filter_map(char::from_u32)
}

#[test]
fn character_classes_agree_with_the_standard_library() {
    for c in all_chars() {
        assert_eq!(white_space(c), c.is_whitespace(), "{:x}", c as u32);
        assert_eq!(control(c), c.is_control(), "{:x}", c as u32);
        assert_eq!(ascii_lower(c), c.to_ascii_lowercase(), "{:x}", c as u32);
        assert_eq!(utf8_width(c), c.len_utf8(), "{:x}", c as u32);
    }
}

#[test]
fn trimming_agrees_with_the_standard_library() {
    for s in ["", " ", "a", " a ", "\u{3000}見出し\t\n", "a b", "\u{200b}x", " \u{85}x\u{a0}"] {
        assert_eq!(from_chars(&trim(&to_chars(s))), s.trim(), "{s:?}");
    }
}

#[test]
fn lowercase_touches_ascii_alone() {
    assert_eq!(ascii_lowercase("YES"), "yes");
    assert_eq!(ascii_lowercase("ÄZ日"), "ÄZ日".to_ascii_lowercase());
}

#[test]
fn numbers_are_written_in_decimal() {
    for n in [0, 9, 10, 99, 100, 12_345, u64::MAX] {
        assert_eq!(decimal(n), n.to_string());
    }
    for n in [0, -1, 1, -10, i64::MIN, i64::MAX] {
        assert_eq!(signed_decimal(n), n.to_string());
    }
}

#[test]
fn numbers_are_read_as_the_standard_library_reads_them() {
    for s in [
        "", "+", "-", "0", "-0", "+0", "007", "256", "+256", "-256", "2147483647", "2147483648",
        "-2147483648", "-2147483649", "4294967295", "4294967296", "99999999999999999999", "1 ",
        " 1", "1a", "--1", "+-1", "１",
    ] {
        assert_eq!(parse_i32(s), s.parse::<i32>().ok(), "{s:?}");
        assert_eq!(parse_u32(s), s.parse::<u32>().ok(), "{s:?}");
    }
}

#[test]
fn prefixes_and_equality() {
    assert!(starts_with("ollama:x", "ollama:"));
    assert!(!starts_with("ollama", "ollama:"));
    assert_eq!(strip_prefix("ollama:x", "ollama:").as_deref(), Some("x"));
    assert_eq!(strip_prefix("ollama:", "ollama:").as_deref(), Some(""));
    assert_eq!(strip_prefix("x", "ollama:"), None);
    assert!(same_text("日本", "日本"));
    assert!(!same_text("日本", "日"));
    assert!(!same_text("a", "b"));
}

#[test]
fn texts_are_ordered_as_strings_are() {
    let samples = ["", "a", "ab", "b", "A", "日", "日本", "\u{10ffff}", "\u{ffff}", "z"];
    for a in samples {
        for b in samples {
            let expected = if a == b {
                Order::Equal
            } else if a < b {
                Order::Less
            } else {
                Order::Greater
            };
            assert_eq!(order_texts(a, b), expected, "{a:?} {b:?}");
        }
    }
}
