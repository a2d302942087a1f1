use rusty_bots::text::{blank, contains_str, parse_u64, to_decimal, utf8_longer_than, chars_of, string_of};

#[test]
fn decimal_rendering() {
    assert_eq!(to_decimal(0), "0");
    assert_eq!(to_decimal(7), "7");
    assert_eq!(to_decimal(1234567890123), "1234567890123");
    assert_eq!(to_decimal(u64::MAX), "18446744073709551615");
}

#[test]
fn parse_accepts_what_std_accepts() {
    for s in ["0", "42", "+42", "007", "18446744073709551615", "", "+", "-1", "12a", " 1", "18446744073709551616", "99999999999999999999"] {
        assert_eq!(parse_u64(s), s.parse::<u64>().ok(), "input {:?}", s);
    }
}

#[test]
fn parse_decimal_roundtrip_examples() {
    for n in [0u64, 9, 10, 255, 1_000_000, 1195868843298988101, u64::MAX] {
        assert_eq!(parse_u64(&to_decimal(n)), Some(n));
    }
}

#[test]
fn substring_search() {
    assert!(contains_str("hello world", "lo w"));
    assert!(contains_str("abc", ""));
    assert!(!contains_str("abc", "abcd"));
    assert!(!contains_str("abc", "ac"));
    assert!(contains_str("héllo", "él"));
}

#[test]
fn blank_texts() {
    assert!(blank(""));
    assert!(blank(" \t\n"));
    assert!(!blank("  x "));
}

#[test]
fn utf8_length_is_byte_length() {
    for s in ["", "abcde", "abcdef", "héllo", "日本", "😀😀"] {
        let cs = chars_of(s);
        assert_eq!(utf8_longer_than(&cs, 5), s.len() > 5, "input {:?}", s);
        assert_eq!(string_of(&cs), s);
    }
}
