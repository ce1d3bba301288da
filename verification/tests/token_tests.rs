use homeserver_sync::error::SyncError;
use homeserver_sync::token::{format_token, parse_token, since_position};

#[test]
fn parses_plain_digits() {
    assert_eq!(parse_token("0"), Some(0));
    assert_eq!(parse_token("42"), Some(42));
    assert_eq!(parse_token("007"), Some(7));
}

#[test]
fn parses_leading_plus() {
    assert_eq!(parse_token("+15"), Some(15));
}

#[test]
fn rejects_what_is_no_number() {
    assert_eq!(parse_token(""), None);
    assert_eq!(parse_token("+"), None);
    assert_eq!(parse_token("-3"), None);
    assert_eq!(parse_token("12a"), None);
    assert_eq!(parse_token(" 12"), None);
    assert_eq!(parse_token("١٢"), None);
}

#[test]
fn parses_the_largest_position() {
    assert_eq!(parse_token("18446744073709551615"), Some(u64::MAX));
    assert_eq!(parse_token("18446744073709551616"), None);
    assert_eq!(parse_token("99999999999999999999999"), None);
}

#[test]
fn parse_agrees_with_std() {
    for s in ["0", "1", "+1", "++1", "", "+", "00", "18446744073709551615", "18446744073709551616", "1_0", "1 "] {
        assert_eq!(parse_token(s), s.parse::<u64>().ok());
    }
}

#[test]
fn formats_as_decimal() {
    assert_eq!(format_token(0), "0");
    assert_eq!(format_token(9), "9");
    assert_eq!(format_token(10), "10");
    assert_eq!(format_token(1234567890), "1234567890");
    assert_eq!(format_token(u64::MAX), u64::MAX.to_string());
}

#[test]
fn token_round_trip() {
    for p in [0u64, 1, 9, 10, 99, 100, 12345, u64::MAX - 1, u64::MAX] {
        assert_eq!(parse_token(&format_token(p)), Some(p));
    }
}

#[test]
fn since_defaults_to_zero() {
    assert_eq!(since_position(None), Ok(0));
    assert_eq!(since_position(Some("17")), Ok(17));
}

#[test]
fn since_rejects_malformed_token() {
    assert_eq!(since_position(Some("s17")), Err(SyncError::MalformedToken));
    assert_eq!(since_position(Some("")), Err(SyncError::MalformedToken));
}
