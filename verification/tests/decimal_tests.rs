use neoh::decimal::{parse_i32, parse_u32, push_i32, push_u32};

fn u32_text(n: u32) -> String {
    let mut s = String::new();
    push_u32(&mut s, n);
    s
}

fn i32_text(n: i32) -> String {
    let mut s = String::new();
    push_i32(&mut s, n);
    s
}

#[test]
fn push_u32_writes_shortest_numeral() {
    assert_eq!(u32_text(0), "0");
    assert_eq!(u32_text(7), "7");
    assert_eq!(u32_text(10), "10");
    assert_eq!(u32_text(4096), "4096");
    assert_eq!(u32_text(u32::MAX), "4294967295");
}

#[test]
fn push_u32_appends_after_existing_text() {
    let mut s = String::from("#");
    push_u32(&mut s, 250);
    assert_eq!(s, "#250");
}

#[test]
fn push_i32_writes_sign() {
    assert_eq!(i32_text(0), "0");
    assert_eq!(i32_text(31), "31");
    assert_eq!(i32_text(-5), "-5");
    assert_eq!(i32_text(i32::MIN), "-2147483648");
    assert_eq!(i32_text(i32::MAX), "2147483647");
}

#[test]
fn parse_u32_accepts_digits_and_plus() {
    assert_eq!(parse_u32("10"), Some(10));
    assert_eq!(parse_u32("+7"), Some(7));
    assert_eq!(parse_u32("007"), Some(7));
    assert_eq!(parse_u32("0"), Some(0));
    assert_eq!(parse_u32("4294967295"), Some(u32::MAX));
}

#[test]
fn parse_u32_rejects_malformed_numerals() {
    assert_eq!(parse_u32(""), None);
    assert_eq!(parse_u32("+"), None);
    assert_eq!(parse_u32("-1"), None);
    assert_eq!(parse_u32("12a"), None);
    assert_eq!(parse_u32(" 1"), None);
    assert_eq!(parse_u32("4294967296"), None);
    assert_eq!(parse_u32("99999999999999999999"), None);
}

#[test]
fn parse_u32_agrees_with_std() {
    for text in ["0", "+0", "123", "+4294967295", "4294967296", "", "+", "-3", "1_0", "x"] {
        assert_eq!(parse_u32(text), text.parse::<u32>().ok(), "{}", text);
    }
}

#[test]
fn numerals_read_back_to_their_number() {
    for n in [0u32, 1, 9, 10, 99, 100, 65535, 1_000_000, u32::MAX] {
        assert_eq!(parse_u32(&u32_text(n)), Some(n));
    }
}

#[test]
fn parse_i32_reads_signed_numerals() {
    assert_eq!(parse_i32("7"), Some(7));
    assert_eq!(parse_i32("+7"), Some(7));
    assert_eq!(parse_i32("-8"), Some(-8));
    assert_eq!(parse_i32("-0"), Some(0));
    assert_eq!(parse_i32("2147483647"), Some(i32::MAX));
    assert_eq!(parse_i32("-2147483648"), Some(i32::MIN));
    assert_eq!(parse_i32("2147483648"), None);
    assert_eq!(parse_i32("-2147483649"), None);
    assert_eq!(parse_i32("-"), None);
    assert_eq!(parse_i32("+"), None);
    assert_eq!(parse_i32(""), None);
    assert_eq!(parse_i32("--1"), None);
    assert_eq!(parse_i32("7:0"), None);
}

#[test]
fn parse_i32_agrees_with_std() {
    for text in ["0", "-0", "+12", "-12", "2147483647", "-2147483648", "2147483648", "-", "+-1", "1 "] {
        assert_eq!(parse_i32(text), text.parse::<i32>().ok(), "{}", text);
    }
}

#[test]
fn signed_numerals_read_back() {
    for n in [0i32, -1, 1, 7, -128, i32::MIN, i32::MAX] {
        assert_eq!(parse_i32(&i32_text(n)), Some(n));
    }
}
