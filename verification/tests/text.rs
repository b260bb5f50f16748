use twarq::number::{parse_count, write_decimal};
use twarq::text::{
    characters, is_white_space, join_strings, stands_at, substring, trim_end_white, trim_leading,
    trim_trailing, trim_white,
};

#[test]
fn counts_are_read_like_integers() {
    for s in [
        "0", "1", "42", "-7", "+5", "007", "-0", "9223372036854775807", "-9223372036854775808",
        "9223372036854775808", "-9223372036854775809", "99999999999999999999999", "", "-", "+",
        "+-1", "1.5", " 1", "1 ", "1a", "\u{0661}", "18446744073709551616",
        "92233720368547758070",
    ] {
        assert_eq!(parse_count(s), s.parse::<i64>().unwrap_or(0), "{s:?}");
    }
}

#[test]
fn decimals_read_back() {
    for n in [0usize, 1, 9, 10, 99, 100, 12345, 9007199254740993, usize::MAX] {
        assert_eq!(write_decimal(n), format!("{n}"));
    }
    assert_eq!(parse_count(&write_decimal(20180924)), 20180924);
}

#[test]
fn white_space_is_unicode_white_space() {
    for n in 0..=0x10ffffu32 {
        if let Some(c) = char::from_u32(n) {
            assert_eq!(is_white_space(c), c.is_whitespace(), "{n:x}");
        }
    }
}

#[test]
fn trimming() {
    for s in ["", " ", "a", " \t a b \n", "\u{3000}旅行\u{3000}", "\u{200b}x\u{200b}"] {
        assert_eq!(trim_white(s), s.trim());
        assert_eq!(trim_end_white(s), s.trim_end());
    }
    for s in ["", "@", "@@alice", "alice@", "@a@"] {
        assert_eq!(trim_leading(s, '@'), s.trim_start_matches('@'));
        assert_eq!(trim_trailing(s, '@'), s.trim_end_matches('@'));
    }
}

#[test]
fn joining_and_taking_apart() {
    let parts = ["旅".to_string(), "".to_string(), "行".to_string()];
    assert_eq!(join_strings(&parts, ", "), "旅, , 行");
    assert_eq!(join_strings(&[], ", "), "");
    let cs = characters("旅行の写真");
    assert_eq!(cs, ['旅', '行', 'の', '写', '真']);
    assert_eq!(substring(&cs, 1, 3), "行の");
    assert!(stands_at(&cs, 3, "写真"));
    assert!(!stands_at(&cs, 3, "写真#"));
    assert!(stands_at(&cs, 5, ""));
}
