use exercises::parse::{parse_number, ParseError};

#[test]
fn should_return_ok() {
    let s = "30";

    assert_eq!(parse_number(s).unwrap(), 30);
}

#[test]
fn should_fail_due_to_empty_string() {
    let s = "";

    match parse_number(s) {
        Err(e) => {
            assert_eq!(e, ParseError::EmptyString)
        }
        _ => (),
    }
}

#[test]
fn should_fail_due_to_invalid_format() {
    let s = "hello world";

    match parse_number(s) {
        Err(e) => {
            assert_eq!(e, ParseError::InvalidFormat)
        }
        _ => (),
    }
}

#[test]
fn parse_signs_and_limits() {
    assert_eq!(parse_number("-42"), Ok(-42));
    assert_eq!(parse_number("+7"), Ok(7));
    assert_eq!(parse_number("2147483647"), Ok(i32::MAX));
    assert_eq!(parse_number("-2147483648"), Ok(i32::MIN));
}

#[test]
fn parse_rejects_malformed_text() {
    assert_eq!(parse_number("2147483648"), Err(ParseError::InvalidFormat));
    assert_eq!(parse_number(" 5"), Err(ParseError::InvalidFormat));
    assert_eq!(parse_number("-"), Err(ParseError::InvalidFormat));
    assert_eq!(parse_number("12a"), Err(ParseError::InvalidFormat));
    assert_eq!(parse_number(""), Err(ParseError::EmptyString));
}

#[test]
fn parse_error_messages() {
    assert_eq!(ParseError::InvalidFormat.message(), "Invalid number format");
    assert_eq!(ParseError::EmptyString.message(), "Empty input string");
}
