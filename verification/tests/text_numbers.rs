use rat_bar::number::{parse_unsigned, push_decimal, push_zero_padded, IntErrorKind};
use rat_bar::text::{
    chars_of, contains_chars, find_char, is_whitespace, join_strings, push_str, string_of_range, text_lt, trim_bounds,
};

fn parse(s: &str, radix: u32, max: u64) -> Result<u64, IntErrorKind> {
    let v = chars_of(s);
    parse_unsigned(&v, 0, v.len(), radix, max)
}

#[test]
fn parse_decimal_number() {
    assert_eq!(parse("123", 10, u64::MAX), Ok(123));
    assert_eq!(parse("+42", 10, u64::MAX), Ok(42));
    assert_eq!(parse("007", 10, u64::MAX), Ok(7));
}

#[test]
fn parse_hexadecimal_number() {
    assert_eq!(parse("ff00ff", 16, u32::MAX as u64), Ok(0xff00ff));
    assert_eq!(parse("FFFFFFFF", 16, u32::MAX as u64), Ok(0xffff_ffff));
}

#[test]
fn parse_empty_text_is_refused() {
    assert_eq!(parse("", 10, u64::MAX), Err(IntErrorKind::Empty));
}

#[test]
fn parse_bad_digit_is_refused() {
    assert_eq!(parse("12a", 10, u64::MAX), Err(IntErrorKind::InvalidDigit));
    assert_eq!(parse("+", 10, u64::MAX), Err(IntErrorKind::InvalidDigit));
    assert_eq!(parse("-3", 10, u64::MAX), Err(IntErrorKind::InvalidDigit));
    assert_eq!(parse(" 1", 10, u64::MAX), Err(IntErrorKind::InvalidDigit));
}

#[test]
fn parse_too_large_is_refused() {
    assert_eq!(parse("18446744073709551616", 10, u64::MAX), Err(IntErrorKind::PosOverflow));
    assert_eq!(parse("18446744073709551615", 10, u64::MAX), Ok(u64::MAX));
    assert_eq!(parse("65536", 10, u16::MAX as u64), Err(IntErrorKind::PosOverflow));
    assert_eq!(parse("100000000", 16, u32::MAX as u64), Err(IntErrorKind::PosOverflow));
}

#[test]
fn parse_range_of_text() {
    let v = chars_of("ab1234cd");
    assert_eq!(parse_unsigned(&v, 2, 6, 10, u64::MAX), Ok(1234));
}

#[test]
fn printed_number_reads_back() {
    for n in [0u64, 7, 10, 12345, u64::MAX] {
        let mut out = Vec::new();
        push_decimal(&mut out, n);
        assert_eq!(parse_unsigned(&out, 0, out.len(), 10, u64::MAX), Ok(n));
    }
}

#[test]
fn decimal_and_padded_text() {
    let mut out = Vec::new();
    push_decimal(&mut out, 305);
    assert_eq!(out.iter().collect::<String>(), "305");
    let mut out = Vec::new();
    push_zero_padded(&mut out, 5, 2);
    push_zero_padded(&mut out, 123, 2);
    assert_eq!(out.iter().collect::<String>(), "05123");
}

#[test]
fn trimming_and_searching() {
    let v = chars_of("  hi there \n");
    let (a, b) = trim_bounds(&v, 0, v.len());
    assert_eq!(string_of_range(&v, a, b), "hi there");
    assert_eq!(find_char(&v, 0, v.len(), 't'), Some(5));
    assert_eq!(find_char(&v, 6, v.len(), 't'), None);
    assert!(is_whitespace('\u{2002}'));
    assert!(!is_whitespace('x'));
}

#[test]
fn joining_and_lowering() {
    let list = vec!["a".to_string(), "b".to_string(), "c".to_string()];
    assert_eq!(join_strings(&list, ", "), "a, b, c");
    assert_eq!(join_strings(&Vec::new(), ", "), "");
    assert!(contains_chars(&chars_of("spotify player"), &chars_of("player")));
    assert!(!contains_chars(&chars_of("vlc"), &chars_of("player")));
    let mut s = String::from("ab");
    push_str(&mut s, "cd");
    assert_eq!(s, "abcd");
}

#[test]
fn text_order_as_str_orders() {
    let lt = |a: &str, b: &str| text_lt(&chars_of(a), &chars_of(b));
    assert!(lt("ab", "b"));
    assert!(!lt("b", "ab"));
    assert!(lt("a", "ab"));
    assert!(!lt("ab", "ab"));
    assert!(!lt("é", "z"));
    assert!(lt("", "a"));
    for (a, b) in [("x", "xy"), ("Z", "a"), ("day", "time"), ("é", "ê")] {
        assert_eq!(lt(a, b), a < b);
        assert_eq!(lt(b, a), b < a);
    }
}
