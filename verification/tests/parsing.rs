use cyd_clock::clock::parse::{digit_of, parse_i64, IntErrorKind};
use cyd_clock::configuration::setup_wifi::{decode_text_body, pause_after_attempt, WIFI_ATTEMPTS};
use cyd_clock::utils::http_utils::{body_text, prefix_bytes, truncate_body};

#[test]
fn parse_i64_reads_decimal_numbers() {
    assert_eq!(parse_i64("1700000000000"), Ok(1700000000000));
    assert_eq!(parse_i64("0"), Ok(0));
    assert_eq!(parse_i64("-5"), Ok(-5));
    assert_eq!(parse_i64("+7"), Ok(7));
    assert_eq!(parse_i64("007"), Ok(7));
    assert_eq!(parse_i64("9223372036854775807"), Ok(i64::MAX));
    assert_eq!(parse_i64("-9223372036854775808"), Ok(i64::MIN));
}

#[test]
fn parse_i64_errors_as_std_does() {
    assert_eq!(parse_i64(""), Err(IntErrorKind::Empty));
    assert_eq!(parse_i64("+"), Err(IntErrorKind::InvalidDigit));
    assert_eq!(parse_i64("-"), Err(IntErrorKind::InvalidDigit));
    assert_eq!(parse_i64("12a"), Err(IntErrorKind::InvalidDigit));
    assert_eq!(parse_i64(" 12"), Err(IntErrorKind::InvalidDigit));
    assert_eq!(parse_i64("9223372036854775808"), Err(IntErrorKind::PosOverflow));
    assert_eq!(parse_i64("-9223372036854775809"), Err(IntErrorKind::NegOverflow));
    assert_eq!(parse_i64("99999999999999999999x"), Err(IntErrorKind::PosOverflow));
    for s in ["", "+", "12a", "9223372036854775808", "-9223372036854775809", "123", "-42"] {
        let std_result = s.parse::<i64>();
        match (parse_i64(s), std_result) {
            (Ok(a), Ok(b)) => assert_eq!(a, b),
            (Err(k), Err(e)) => assert_eq!(k.to_error().description(), e.to_string()),
            _ => panic!("disagreement on {:?}", s),
        }
    }
}

#[test]
fn digit_of_single_characters() {
    assert_eq!(digit_of('0'), Some(0));
    assert_eq!(digit_of('9'), Some(9));
    assert_eq!(digit_of('a'), None);
    assert_eq!(digit_of('+'), None);
}

#[test]
fn wifi_pauses_only_between_failed_attempts() {
    assert_eq!(WIFI_ATTEMPTS, 3);
    assert!(pause_after_attempt(1, false));
    assert!(pause_after_attempt(2, false));
    assert!(!pause_after_attempt(3, false));
    assert!(!pause_after_attempt(1, true));
}

#[test]
fn response_bodies() {
    assert_eq!(truncate_body(vec![1, 2, 3, 4], 2), vec![1, 2]);
    assert_eq!(truncate_body(vec![1, 2], 5), vec![1, 2]);
    assert_eq!(prefix_bytes(&[9, 8, 7], 2), vec![9, 8]);
    assert_eq!(body_text("héllo".as_bytes()), Some("héllo".to_string()));
    assert_eq!(body_text(&[0xff, 0x41]), None);
    let mut buf = [0u8; 1024];
    buf[..13].copy_from_slice(b"1700000000000");
    assert_eq!(decode_text_body(&buf, 13).unwrap(), "1700000000000");
    buf[0] = 0xC3;
    assert_eq!(decode_text_body(&buf, 1).unwrap_err().description(), "Error decoding response body");
}
