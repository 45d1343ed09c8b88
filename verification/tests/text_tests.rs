use shop::password::password_hash;
use shop::text::{i32_to_string, parse_bool, parse_i32, to_lower_hex};

#[test]
fn parse_i32_reads_plain_and_signed_numbers() {
    assert_eq!(parse_i32("42"), Some(42));
    assert_eq!(parse_i32("-7"), Some(-7));
    assert_eq!(parse_i32("+5"), Some(5));
    assert_eq!(parse_i32("007"), Some(7));
    assert_eq!(parse_i32("-0"), Some(0));
}

#[test]
fn parse_i32_takes_the_whole_range() {
    assert_eq!(parse_i32("2147483647"), Some(i32::MAX));
    assert_eq!(parse_i32("-2147483648"), Some(i32::MIN));
    assert_eq!(parse_i32("2147483648"), None);
    assert_eq!(parse_i32("-2147483649"), None);
    assert_eq!(parse_i32("99999999999999999999"), None);
}

#[test]
fn parse_i32_refuses_what_str_parse_refuses() {
    for s in ["", "-", "+", "abc", "1a", " 1", "1 ", "--1", "+-1", "1,"] {
        assert_eq!(parse_i32(s), None, "{:?}", s);
        assert!(s.parse::<i32>().is_err());
    }
}

#[test]
fn parse_i32_agrees_with_str_parse() {
    for s in ["0", "12", "-12", "+12", "2147483647", "-2147483648", "2147483648", "x", "", "+"] {
        assert_eq!(parse_i32(s), s.parse::<i32>().ok(), "{:?}", s);
    }
}

#[test]
fn i32_to_string_writes_decimal() {
    assert_eq!(i32_to_string(0), "0");
    assert_eq!(i32_to_string(1000), "1000");
    assert_eq!(i32_to_string(-123), "-123");
    assert_eq!(i32_to_string(i32::MIN), "-2147483648");
    assert_eq!(i32_to_string(i32::MAX), "2147483647");
}

#[test]
fn i32_text_reads_back() {
    for n in [0, 1, -1, 9, 10, 99, 100, -100, 123456, i32::MIN, i32::MAX] {
        assert_eq!(i32_to_string(n), n.to_string());
        assert_eq!(parse_i32(&i32_to_string(n)), Some(n));
    }
}

#[test]
fn parse_bool_reads_true_and_false_only() {
    assert_eq!(parse_bool("true"), Some(true));
    assert_eq!(parse_bool("false"), Some(false));
    assert_eq!(parse_bool("True"), None);
    assert_eq!(parse_bool(""), None);
    assert_eq!(parse_bool("1"), None);
}

#[test]
fn lower_hex_writes_two_digits_per_byte() {
    assert_eq!(to_lower_hex(&vec![]), "");
    assert_eq!(to_lower_hex(&vec![0x0f, 0xa0, 0x00, 0xff]), "0fa000ff");
}

#[test]
fn password_hash_is_hex_sha256() {
    assert_eq!(
        password_hash("password"),
        "5e884898da28047151d0e56f8dc6292773603d0d6aabbdd62a11ef721d1542d8"
    );
    assert_eq!(
        password_hash(""),
        "e3b0c44298fc1c149afbf4c8996fb92427ae41e4649b934ca495991b7852b855"
    );
    assert_eq!(password_hash("secret").len(), 64);
}
