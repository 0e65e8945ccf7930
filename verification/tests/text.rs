use zed_kotlin::text::{
    chars_of, decimal_string, parse_decimal, signed_decimal_string, string_of, trim_bounds,
    IntErrorKind,
};

fn parse(s: &str, max: u64) -> Result<u64, IntErrorKind> {
    let v = chars_of(s);
    parse_decimal(&v, 0, v.len(), max)
}

#[test]
fn parses_like_std() {
    assert_eq!(parse("0", 65535), Ok(0));
    assert_eq!(parse("+42", 65535), Ok(42));
    assert_eq!(parse("65535", 65535), Ok(65535));
    assert_eq!(parse("65536", 65535), Err(IntErrorKind::PosOverflow));
    assert_eq!(parse("", 65535), Err(IntErrorKind::Empty));
    assert_eq!(parse("+", 65535), Err(IntErrorKind::InvalidDigit));
    assert_eq!(parse("-", 65535), Err(IntErrorKind::InvalidDigit));
    assert_eq!(parse("-0", 65535), Err(IntErrorKind::InvalidDigit));
    assert_eq!(parse("1x", 65535), Err(IntErrorKind::InvalidDigit));
    assert_eq!(parse("9999999x", 65535), Err(IntErrorKind::PosOverflow));
    assert_eq!(parse("18446744073709551615", u64::MAX), Ok(u64::MAX));
    assert_eq!(parse("18446744073709551616", u64::MAX), Err(IntErrorKind::PosOverflow));
    for s in ["0", "+7", "", "+", "-3", "12a", "70000", "065535"] {
        let ours = parse(s, 65535).map(|v| v as u16);
        let std = s.parse::<u16>();
        assert_eq!(ours.is_ok(), std.is_ok(), "{s}");
        if let Ok(v) = std {
            assert_eq!(ours, Ok(v));
        }
    }
}

#[test]
fn trims_unicode_white_space() {
    let v = chars_of("\u{3000} \t a b \u{a0}\n");
    let (a, b) = trim_bounds(&v, 0, v.len());
    assert_eq!(string_of(&v[a..b].to_vec()), "a b");
    let v = chars_of("   ");
    let (a, b) = trim_bounds(&v, 0, v.len());
    assert_eq!(a, b);
}

#[test]
fn formats_decimals() {
    assert_eq!(decimal_string(0), "0");
    assert_eq!(decimal_string(1234567890), "1234567890");
    assert_eq!(signed_decimal_string(-32601), "-32601");
    assert_eq!(signed_decimal_string(i64::MAX), "9223372036854775807");
}
