use fwaifu::text::{decimal, parse_i64, parse_u32, parse_u64, parse_usize, quoted_field, split_lines, str_starts_with, trim_str};

#[test]
fn trim_removes_unicode_whitespace() {
    assert_eq!(trim_str("  abc \t\n"), "abc");
    assert_eq!(trim_str("\u{3000}x\u{a0}"), "x");
    assert_eq!(trim_str("   "), "");
    assert_eq!(trim_str("a b"), "a b");
}

#[test]
fn parse_like_std() {
    for s in ["0", "42", "+7", "-1", "", "+", "-", "1 ", "18446744073709551615", "18446744073709551616", "00012", "1a"] {
        assert_eq!(parse_u64(s), s.parse::<u64>().ok(), "u64 {s:?}");
        assert_eq!(parse_u32(s), s.parse::<u32>().ok(), "u32 {s:?}");
        assert_eq!(parse_usize(s), s.parse::<usize>().ok(), "usize {s:?}");
        assert_eq!(parse_i64(s), s.parse::<i64>().ok(), "i64 {s:?}");
    }
    for s in ["-9223372036854775808", "-9223372036854775809", "9223372036854775807", "9223372036854775808", "-0", "+0", "4294967295", "4294967296"] {
        assert_eq!(parse_i64(s), s.parse::<i64>().ok(), "i64 {s:?}");
        assert_eq!(parse_u32(s), s.parse::<u32>().ok(), "u32 {s:?}");
    }
}

#[test]
fn decimal_like_to_string() {
    for n in [0u128, 7, 10, 99, 1234567890, u64::MAX as u128, u128::MAX] {
        assert_eq!(decimal(n), n.to_string());
    }
}

#[test]
fn lines_like_std() {
    for s in ["", "a", "a\n", "a\r\nb", "a\n\nb\n", "\n", "x\r", "x\r\n\r\n", "one\ntwo\r\nthree"] {
        let expect: Vec<String> = s.lines().map(|l| l.to_string()).collect();
        assert_eq!(split_lines(s), expect, "{s:?}");
    }
}

#[test]
fn quoted_field_like_split_nth() {
    for s in ["version = \"0.2.1\"", "no quotes", "a\"b", "\"\"", "x\"y\"z\"w"] {
        assert_eq!(quoted_field(s), s.split('"').nth(1).map(|x| x.to_string()), "{s:?}");
    }
}

#[test]
fn prefix_check() {
    assert!(str_starts_with("https://x", "https://"));
    assert!(!str_starts_with("http", "https://"));
    assert!(str_starts_with("abc", ""));
}
