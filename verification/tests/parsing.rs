use portbridge::ports::{format_port, parse_port, ReadError};

#[test]
fn plain_number_parses() {
    assert_eq!(parse_port(&b"30000".to_vec()), Ok(30000));
}

#[test]
fn surrounding_whitespace_is_trimmed() {
    assert_eq!(parse_port(&b" 30000\n".to_vec()), Ok(30000));
    assert_eq!(parse_port(&b"\t8080\r\n".to_vec()), Ok(8080));
}

#[test]
fn letters_fail_to_parse() {
    // Letters are not a decimal number.
    assert_eq!(parse_port(&b"abc".to_vec()), Err(ReadError::ParseFailure));
}

#[test]
fn zero_parses_to_zero() {
    // A literal "0" parses; the notifier later declines to post it.
    assert_eq!(parse_port(&b"0".to_vec()), Ok(0));
}

#[test]
fn empty_and_blank_fail_to_parse() {
    assert_eq!(parse_port(&b"".to_vec()), Err(ReadError::ParseFailure));
    assert_eq!(parse_port(&b" \n".to_vec()), Err(ReadError::ParseFailure));
}

#[test]
fn inner_whitespace_fails_to_parse() {
    assert_eq!(parse_port(&b"30 000".to_vec()), Err(ReadError::ParseFailure));
}

#[test]
fn sign_characters_fail_to_parse() {
    assert_eq!(parse_port(&b"-5".to_vec()), Err(ReadError::ParseFailure));
    assert_eq!(parse_port(&b"+5".to_vec()), Err(ReadError::ParseFailure));
}

#[test]
fn largest_value_parses_and_overflow_fails() {
    assert_eq!(parse_port(&b"4294967295".to_vec()), Ok(u32::MAX));
    assert_eq!(parse_port(&b"4294967296".to_vec()), Err(ReadError::ParseFailure));
    assert_eq!(
        parse_port(&b"99999999999999999999".to_vec()),
        Err(ReadError::ParseFailure)
    );
}

#[test]
fn leading_zeros_parse() {
    assert_eq!(parse_port(&b"007".to_vec()), Ok(7));
}

#[test]
fn format_gives_decimal_digits() {
    assert_eq!(format_port(0), b"0".to_vec());
    assert_eq!(format_port(7), b"7".to_vec());
    assert_eq!(format_port(30000), b"30000".to_vec());
    assert_eq!(format_port(u32::MAX), b"4294967295".to_vec());
}

#[test]
fn format_then_parse_round_trips() {
    for v in [0u32, 1, 9, 10, 80, 65535, 30000, 4096, u32::MAX] {
        assert_eq!(parse_port(&format_port(v)), Ok(v));
    }
}
