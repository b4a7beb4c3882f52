use openkj_ticker::number::{decimal_text, parse_i64};
use openkj_ticker::text::{
    ascii_lower, chars_of, eq_ignoring_ascii_case, find, is_white_space, trim,
};

fn chars(s: &str) -> Vec<char> {
    s.chars().collect()
}

#[test]
fn white_space_is_unicode_white_space() {
    for code in 0u32..=0x10ffff {
        if let Some(c) = char::from_u32(code) {
            assert_eq!(is_white_space(c), c.is_whitespace(), "U+{:04X}", code);
        }
    }
}

#[test]
fn ascii_lower_leaves_other_characters_alone() {
    for code in 0u32..=0x10ffff {
        if let Some(c) = char::from_u32(code) {
            assert_eq!(ascii_lower(c), c.to_ascii_lowercase());
        }
    }
    assert_eq!(ascii_lower('É'), 'É');
}

#[test]
fn trim_strips_both_ends() {
    for s in ["", " ", " a", "a ", "\t a b \r", "\u{3000}x\u{a0}", "x", "\u{200b}x"] {
        assert_eq!(trim(&chars(s)).to_vec(), chars(s.trim()), "{:?}", s);
    }
}

#[test]
fn chars_come_in_order() {
    assert_eq!(chars_of("aß漢"), vec!['a', 'ß', '漢']);
    assert_eq!(chars_of(""), Vec::<char>::new());
}

#[test]
fn case_is_ignored_for_ascii_only() {
    assert!(eq_ignoring_ascii_case(&chars("AbC"), &chars("aBc")));
    assert!(!eq_ignoring_ascii_case(&chars("abc"), &chars("abcd")));
    assert!(!eq_ignoring_ascii_case(&chars("abc"), &chars("abd")));
    assert!(!eq_ignoring_ascii_case(&chars("é"), &chars("É")));
    assert!(!eq_ignoring_ascii_case(&chars("["), &chars("{")));
}

#[test]
fn find_gives_the_first() {
    assert_eq!(find(&chars("a=b=c"), '='), Some(1));
    assert_eq!(find(&chars("abc"), '='), None);
}

#[test]
fn integers_are_read_as_std_reads_them() {
    for s in [
        "0", "7", "-7", "+7", "007", "-0", "", "+", "-", "+-1", "--1", "1-", " 1", "1 ", "1.0",
        "0x1", "９", "9223372036854775807", "9223372036854775808", "-9223372036854775808",
        "-9223372036854775809", "000000000000000000000000000000000000000000000000000000001",
        "100000000000000000000000000000000000000000000000000000000", "1e3", "12a",
        "99999999999999999999999999999999999999999999999999999999999999x",
    ] {
        assert_eq!(parse_i64(&chars(s)), s.parse::<i64>().ok(), "{:?}", s);
    }
}

#[test]
fn numerals_are_read_back() {
    for n in [0i64, 1, 9, 10, 99, 100, 65535, i64::MAX, -1, -10, i64::MIN] {
        let text = if n < 0 {
            format!("-{}", decimal_text(n.unsigned_abs()))
        } else {
            decimal_text(n as u64)
        };
        assert_eq!(text, n.to_string());
        assert_eq!(parse_i64(&chars(&text)), Some(n));
    }
}
