use free2pee::text::{decimal_string, parse_u32};

#[test]
fn decimal_of_integers() {
    assert_eq!(decimal_string(0), "0");
    assert_eq!(decimal_string(7), "7");
    assert_eq!(decimal_string(10), "10");
    assert_eq!(decimal_string(2000), "2000");
    assert_eq!(decimal_string(-5), "-5");
    assert_eq!(decimal_string(i64::MAX), i64::MAX.to_string());
    assert_eq!(decimal_string(i64::MIN), i64::MIN.to_string());
}

#[test]
fn parse_u32_accepts_digits() {
    assert_eq!(parse_u32("2000"), Some(2000));
    assert_eq!(parse_u32("+5"), Some(5));
    assert_eq!(parse_u32("007"), Some(7));
    assert_eq!(parse_u32("0"), Some(0));
    assert_eq!(parse_u32("4294967295"), Some(u32::MAX));
}

#[test]
fn parse_u32_refuses_other_text() {
    assert_eq!(parse_u32(""), None);
    assert_eq!(parse_u32("+"), None);
    assert_eq!(parse_u32("-1"), None);
    assert_eq!(parse_u32("4294967296"), None);
    assert_eq!(parse_u32("99999999999999999999"), None);
    assert_eq!(parse_u32(" 12"), None);
    assert_eq!(parse_u32("12a"), None);
    assert_eq!(parse_u32("1.5"), None);
    assert_eq!(parse_u32("١٢"), None);
}

#[test]
fn parse_u32_agrees_with_std() {
    for text in ["2000", "+5", "", "+", "-0", "42x", "4294967295", "4294967296", "00000000000000000001"] {
        assert_eq!(parse_u32(text), text.parse::<u32>().ok(), "{}", text);
    }
}

#[test]
fn decimal_reads_back() {
    for n in [0u32, 1, 9, 10, 2000, 65535, u32::MAX] {
        assert_eq!(parse_u32(&decimal_string(n as i64)), Some(n));
    }
}
