use jellyfin_exporter::text::{decimal_string, parse_unsigned_text, strip_prefix, text_eq, IntErrorKind};

#[test]
fn decimal_strings() {
    assert_eq!(decimal_string(0), "0");
    assert_eq!(decimal_string(9711), "9711");
    assert_eq!(decimal_string(u64::MAX), "18446744073709551615");
}

#[test]
fn parse_unsigned_values() {
    assert_eq!(parse_unsigned_text("65535", 65535), Ok(65535));
    assert_eq!(parse_unsigned_text("+42", u64::MAX), Ok(42));
    assert_eq!(parse_unsigned_text("007", u64::MAX), Ok(7));
    assert_eq!(parse_unsigned_text("18446744073709551615", u64::MAX), Ok(u64::MAX));
}

#[test]
fn parse_unsigned_errors_match_std() {
    assert_eq!(parse_unsigned_text("", u64::MAX), Err(IntErrorKind::Empty));
    assert_eq!(parse_unsigned_text("+", u64::MAX), Err(IntErrorKind::InvalidDigit));
    assert_eq!(parse_unsigned_text("-", u64::MAX), Err(IntErrorKind::InvalidDigit));
    assert_eq!(parse_unsigned_text("-1", u64::MAX), Err(IntErrorKind::InvalidDigit));
    assert_eq!(parse_unsigned_text(" 1", u64::MAX), Err(IntErrorKind::InvalidDigit));
    assert_eq!(parse_unsigned_text("65536", 65535), Err(IntErrorKind::PosOverflow));
    assert_eq!(parse_unsigned_text("18446744073709551616", u64::MAX), Err(IntErrorKind::PosOverflow));
    // An overflow found before a bad digit is reported as overflow, as std does.
    assert_eq!(parse_unsigned_text("99999x", 65535), Err(IntErrorKind::PosOverflow));
    assert_eq!(parse_unsigned_text("9x9999", 65535), Err(IntErrorKind::InvalidDigit));
    // Cross-check against std.
    for s in ["", "+", "-", "12a", "65536", "65535", "+0", "00065535", "99999x", "9x9999"] {
        let ours = parse_unsigned_text(s, u16::MAX as u64);
        match s.parse::<u16>() {
            Ok(v) => assert_eq!(ours, Ok(v as u64), "{s:?}"),
            Err(e) => {
                let kind = match e.kind() {
                    std::num::IntErrorKind::Empty => IntErrorKind::Empty,
                    std::num::IntErrorKind::InvalidDigit => IntErrorKind::InvalidDigit,
                    std::num::IntErrorKind::PosOverflow => IntErrorKind::PosOverflow,
                    other => panic!("unexpected {other:?}"),
                };
                assert_eq!(ours, Err(kind), "{s:?}");
            }
        }
    }
}

#[test]
fn text_equality_and_prefix() {
    assert!(text_eq("héllo", "héllo"));
    assert!(!text_eq("hello", "hellö"));
    assert!(!text_eq("a", "ab"));
    assert_eq!(strip_prefix("Bearer tok", "Bearer "), Some("tok"));
    assert_eq!(strip_prefix("Bear", "Bearer "), None);
    assert_eq!(strip_prefix("Bearer ", "Bearer "), Some(""));
}
