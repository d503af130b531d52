use httparena_reinhardt::strings::{format_i64, format_u64, parse_body_i64, parse_i64, parse_u64};

#[test]
fn parse_i64_accepts_what_std_accepts() {
    for text in ["0", "42", "-42", "+7", "007", "9223372036854775807", "-9223372036854775808"] {
        assert_eq!(parse_i64(text), text.parse::<i64>().ok(), "{text}");
    }
}

#[test]
fn parse_i64_rejects_what_std_rejects() {
    for text in ["", "+", "-", "1a", " 1", "1 ", "9223372036854775808", "-9223372036854775809", "--1", "1.0"] {
        assert_eq!(parse_i64(text), None, "{text}");
        assert!(text.parse::<i64>().is_err());
    }
}

#[test]
fn parse_u64_matches_std() {
    for text in ["0", "+5", "18446744073709551615", "18446744073709551616", "-0", "", "+", "x"] {
        assert_eq!(parse_u64(text), text.parse::<u64>().ok(), "{text}");
    }
}

#[test]
fn format_matches_display() {
    for n in [0i64, 7, -7, 10, 1234567890, i64::MAX, i64::MIN] {
        assert_eq!(format_i64(n), n.to_string());
        assert_eq!(parse_i64(&format_i64(n)), Some(n));
    }
    assert_eq!(format_u64(u64::MAX), u64::MAX.to_string());
    for n in [0i64, -3, 77, i64::MIN] {
        assert_eq!(parse_body_i64(format_i64(n).as_bytes()), n);
    }
}

#[test]
fn body_integer_is_trimmed_and_parsed() {
    assert_eq!(parse_body_i64(b"  12\n"), 12);
    assert_eq!(parse_body_i64("\u{3000}-5\u{a0}".as_bytes()), -5);
    assert_eq!(parse_body_i64(b"12 13"), 0);
    assert_eq!(parse_body_i64(b""), 0);
    assert_eq!(parse_body_i64(&[0x31, 0xff]), 0);
}
