use termbridge::port::{append_decimal, parse_port, PortError};
use std::num::IntErrorKind;
use termbridge::text::{join_words, text_equals};

fn std_kind(s: &str) -> Result<u16, PortError> {
    s.parse::<u16>().map_err(|e| match e.kind() {
        IntErrorKind::Empty => PortError::Empty,
        IntErrorKind::InvalidDigit => PortError::InvalidDigit,
        IntErrorKind::PosOverflow => PortError::PosOverflow,
        other => panic!("unexpected kind {:?}", other),
    })
}

#[test]
fn parse_port_accepts_numbers() {
    assert_eq!(parse_port("22"), Ok(22));
    assert_eq!(parse_port("+80"), Ok(80));
    assert_eq!(parse_port("00080"), Ok(80));
    assert_eq!(parse_port("0"), Ok(0));
    assert_eq!(parse_port("65535"), Ok(65535));
}

#[test]
fn parse_port_errors() {
    assert_eq!(parse_port(""), Err(PortError::Empty));
    assert_eq!(parse_port("+"), Err(PortError::InvalidDigit));
    assert_eq!(parse_port("-"), Err(PortError::InvalidDigit));
    assert_eq!(parse_port("-1"), Err(PortError::InvalidDigit));
    assert_eq!(parse_port("6553x"), Err(PortError::InvalidDigit));
    assert_eq!(parse_port("65536"), Err(PortError::PosOverflow));
    assert_eq!(parse_port("70000a"), Err(PortError::PosOverflow));
    assert_eq!(parse_port("８０"), Err(PortError::InvalidDigit));
}

#[test]
fn parse_port_agrees_with_std() {
    let cases = [
        "", "+", "-", "0", "1", "+0", "++1", "+-1", "-0", "12a", "a12", "65535", "65536",
        "99999", "100000", "0000000000065535", "655350", "6553 5", " 1", "1 ", "é", "9é",
        "99999é", "+65535", "+65536",
    ];
    for c in cases.iter() {
        assert_eq!(parse_port(c), std_kind(c), "input {:?}", c);
    }
}

#[test]
fn decimal_rendering_matches_format() {
    for n in [0u64, 7, 10, 99, 100, 9090, 65535, 1234567890, u64::MAX] {
        let mut s = "x".to_string();
        append_decimal(&mut s, n);
        assert_eq!(s, format!("x{}", n));
    }
}

#[test]
fn port_round_trip() {
    for p in [0u16, 1, 9, 10, 80, 443, 9090, 65535] {
        let mut s = String::new();
        append_decimal(&mut s, p as u64);
        assert_eq!(parse_port(&s), Ok(p));
    }
}

#[test]
fn text_equality() {
    assert!(text_equals("abc", "abc"));
    assert!(!text_equals("abc", "abd"));
    assert!(!text_equals("abc", "ab"));
    assert!(text_equals("", ""));
    assert!(text_equals("héllo", "héllo"));
}

#[test]
fn join_words_from_index() {
    let ws: Vec<String> = vec!["send".into(), "a".into(), "b".into(), "c".into()];
    assert_eq!(join_words(&ws, 1, " "), "a b c");
    assert_eq!(join_words(&ws, 0, "--"), "send--a--b--c");
    assert_eq!(join_words(&ws, 3, " "), "c");
    assert_eq!(join_words(&ws, 4, " "), "");
}
