use kairos_auth::text::{decimal_text, parse_decimal, parse_i64, push_decimal};

fn written(v: i64) -> String {
    decimal_text(v)
}

fn read(s: &str) -> Option<i64> {
    let c: Vec<char> = s.chars().collect();
    parse_decimal(&c, 0, c.len())
}

#[test]
fn decimal_writing() {
    assert_eq!(written(0), "0");
    assert_eq!(written(86400), "86400");
    assert_eq!(written(-42), "-42");
    assert_eq!(written(i64::MAX), "9223372036854775807");
    assert_eq!(written(i64::MIN), "-9223372036854775808");
}

#[test]
fn decimal_reading() {
    assert_eq!(read("0"), Some(0));
    assert_eq!(read("1700000000"), Some(1700000000));
    assert_eq!(read("-7"), Some(-7));
    assert_eq!(read("-9223372036854775808"), Some(i64::MIN));
    assert_eq!(read("9223372036854775807"), Some(i64::MAX));
}

#[test]
fn decimal_reading_refuses_other_writings() {
    assert_eq!(read(""), None);
    assert_eq!(read("-"), None);
    assert_eq!(read("007"), None);
    assert_eq!(read("-0"), None);
    assert_eq!(read("+5"), None);
    assert_eq!(read("12a"), None);
    assert_eq!(read("9223372036854775808"), None);
    assert_eq!(read("99999999999999999999999"), None);
}

#[test]
fn decimal_reading_of_a_range() {
    let c: Vec<char> = "x:123,".chars().collect();
    assert_eq!(parse_decimal(&c, 2, 5), Some(123));
    assert_eq!(parse_decimal(&c, 1, 5), None);
    let mut out = vec!['='];
    push_decimal(&mut out, -30);
    assert_eq!(out, vec!['=', '-', '3', '0']);
}

#[test]
fn integer_reading_as_str_parse() {
    assert_eq!(parse_i64("42"), Some(42));
    assert_eq!(parse_i64("+42"), Some(42));
    assert_eq!(parse_i64("-042"), Some(-42));
    assert_eq!(parse_i64("-0"), Some(0));
    assert_eq!(parse_i64("0009223372036854775807"), Some(i64::MAX));
    assert_eq!(parse_i64("-9223372036854775808"), Some(i64::MIN));
    assert_eq!(parse_i64("9223372036854775808"), None);
    assert_eq!(parse_i64(""), None);
    assert_eq!(parse_i64("+"), None);
    assert_eq!(parse_i64("-"), None);
    assert_eq!(parse_i64("1 "), None);
    assert_eq!(parse_i64("1_000"), None);
    for t in ["0", "17", "-300", "+8", "00", "-9223372036854775808"] {
        assert_eq!(parse_i64(t), t.parse::<i64>().ok());
    }
}
