use mujina_miner::text::{decimal_string, parse_digits, parse_u32};

#[test]
fn decimal_has_no_padding() {
    assert_eq!(decimal_string(0), "0");
    assert_eq!(decimal_string(42), "42");
    assert_eq!(decimal_string(4294967295), "4294967295");
    assert_eq!(decimal_string(u64::MAX), "18446744073709551615");
}

#[test]
fn parse_u32_reads_plain_numbers() {
    assert_eq!(parse_u32("0"), Some(0));
    assert_eq!(parse_u32("42"), Some(42));
    assert_eq!(parse_u32("4294967295"), Some(u32::MAX));
    assert_eq!(parse_u32("+7"), Some(7));
    assert_eq!(parse_u32("007"), Some(7));
}

#[test]
fn parse_u32_refuses_what_is_no_number() {
    assert_eq!(parse_u32(""), None);
    assert_eq!(parse_u32("+"), None);
    assert_eq!(parse_u32("-1"), None);
    assert_eq!(parse_u32(" 1"), None);
    assert_eq!(parse_u32("1 "), None);
    assert_eq!(parse_u32("12a"), None);
    assert_eq!(parse_u32("++1"), None);
    assert_eq!(parse_u32("4294967296"), None);
    assert_eq!(parse_u32("99999999999999999999999"), None);
    assert_eq!(parse_u32("١٢"), None);
}

#[test]
fn parse_u32_agrees_with_the_standard_reading() {
    for text in ["0", "1", "+1", "-1", "", "+", "00", "4294967295", "4294967296", "12x", "x"] {
        assert_eq!(parse_u32(text), text.parse::<u32>().ok(), "{text:?}");
    }
}

#[test]
fn decimal_text_reads_back() {
    for n in [0u32, 1, 9, 10, 99, 100, 12345, 4294967294, u32::MAX] {
        assert_eq!(parse_u32(&decimal_string(n as u64)), Some(n));
    }
}

#[test]
fn parse_digits_starts_where_it_is_told() {
    assert_eq!(parse_digits("ab:3333", 3, 0xffff), Some(3333));
    assert_eq!(parse_digits("ab:65535", 3, 0xffff), Some(65535));
    assert_eq!(parse_digits("ab:65536", 3, 0xffff), None);
    assert_eq!(parse_digits("ab:", 3, 0xffff), None);
    assert_eq!(parse_digits("ab:+1", 3, 0xffff), None);
}
