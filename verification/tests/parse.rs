use fand::cli::parse::{parse_fan_index, parse_rpm, ParseError};
use fand::flt::Flt;

#[test]
fn fan_index_accepts_decimal_digits() {
    assert_eq!(parse_fan_index("0"), Ok(0));
    assert_eq!(parse_fan_index("1"), Ok(1));
    assert_eq!(parse_fan_index("7"), Ok(7));
    assert_eq!(parse_fan_index("42"), Ok(42));
    assert_eq!(parse_fan_index("255"), Ok(255));
}

#[test]
fn fan_index_rejects_leading_plus() {
    assert_eq!(parse_fan_index("+1"), Err(ParseError::LeadingSign));
}

#[test]
fn fan_index_rejects_negative() {
    assert_eq!(parse_fan_index("-1"), Err(ParseError::LeadingSign));
}

#[test]
fn fan_index_rejects_whitespace() {
    assert_eq!(parse_fan_index(" 1"), Err(ParseError::Whitespace));
    assert_eq!(parse_fan_index("1 "), Err(ParseError::Whitespace));
    assert_eq!(parse_fan_index("1\t"), Err(ParseError::Whitespace));
}

#[test]
fn fan_index_rejects_hex() {
    assert_eq!(parse_fan_index("0x10"), Err(ParseError::Hex));
    assert_eq!(parse_fan_index("1a"), Err(ParseError::Hex));
}

#[test]
fn fan_index_rejects_underscore() {
    assert_eq!(parse_fan_index("1_0"), Err(ParseError::Underscore));
}

#[test]
fn fan_index_rejects_dot() {
    assert_eq!(parse_fan_index("1.0"), Err(ParseError::MultipleDots));
}

#[test]
fn fan_index_rejects_exponent() {
    assert_eq!(parse_fan_index("1e1"), Err(ParseError::Exponent));
}

#[test]
fn fan_index_rejects_non_ascii_digit() {
    // Arabic-Indic digit one, U+0661
    assert!(matches!(
        parse_fan_index("١"),
        Err(ParseError::NonAsciiDigit)
    ));
}

#[test]
fn fan_index_rejects_overflow() {
    assert_eq!(parse_fan_index("256"), Err(ParseError::Overflow));
    assert_eq!(parse_fan_index("9999"), Err(ParseError::Overflow));
}

#[test]
fn fan_index_rejects_empty() {
    assert_eq!(parse_fan_index(""), Err(ParseError::Empty));
}

#[test]
fn fan_index_rejects_leading_zeros() {
    assert_eq!(parse_fan_index("00"), Err(ParseError::OutOfRange));
    assert_eq!(parse_fan_index("007"), Err(ParseError::OutOfRange));
    assert_eq!(parse_fan_index("0256"), Err(ParseError::Overflow));
}

#[test]
fn the_first_fault_counts() {
    assert_eq!(parse_fan_index("1_ "), Err(ParseError::Underscore));
    assert_eq!(parse_fan_index("1 _"), Err(ParseError::Whitespace));
    assert_eq!(parse_fan_index("999e"), Err(ParseError::Exponent));
}

#[test]
fn parse_errors_have_reasons() {
    assert_eq!(ParseError::Empty.message(), "value is empty");
    assert_eq!(
        ParseError::LeadingSign.message(),
        "leading '+' or '-' is not allowed"
    );
    assert_eq!(
        ParseError::OutOfRange.message(),
        "value is outside the valid range"
    );
}

fn flt(x: f32) -> Flt {
    Flt { bits: x.to_bits() }
}

#[test]
fn rpm_accepts_integer() {
    assert_eq!(parse_rpm("3000"), Ok(flt(3000.0)));
    assert_eq!(parse_rpm("0"), Ok(flt(0.0)));
    assert_eq!(parse_rpm("50000"), Ok(flt(50000.0)));
}

#[test]
fn rpm_accepts_decimal() {
    assert_eq!(parse_rpm("3000.5"), Ok(flt(3000.5)));
    assert_eq!(parse_rpm("2317.0"), Ok(flt(2317.0)));
    assert_eq!(parse_rpm("0.1"), Ok(flt(0.1)));
}

#[test]
fn rpm_rejects_leading_sign() {
    assert_eq!(parse_rpm("+3000"), Err(ParseError::LeadingSign));
    assert_eq!(parse_rpm("-100"), Err(ParseError::LeadingSign));
}

#[test]
fn rpm_rejects_whitespace() {
    assert_eq!(parse_rpm(" 3000"), Err(ParseError::Whitespace));
    assert_eq!(parse_rpm("3000 "), Err(ParseError::Whitespace));
}

#[test]
fn rpm_rejects_exponent() {
    assert_eq!(parse_rpm("3e3"), Err(ParseError::Exponent));
    assert_eq!(parse_rpm("3.0E3"), Err(ParseError::Exponent));
}

#[test]
fn rpm_rejects_hex() {
    assert_eq!(parse_rpm("0x10"), Err(ParseError::Hex));
    assert_eq!(parse_rpm("3a"), Err(ParseError::Hex));
}

#[test]
fn rpm_rejects_underscore() {
    assert_eq!(parse_rpm("3_000"), Err(ParseError::Underscore));
}

#[test]
fn rpm_rejects_multiple_dots() {
    assert_eq!(parse_rpm("1.2.3"), Err(ParseError::MultipleDots));
    assert_eq!(parse_rpm(".5"), Err(ParseError::MultipleDots));
    assert_eq!(parse_rpm("5."), Err(ParseError::MultipleDots));
}

#[test]
fn rpm_rejects_nan_and_inf_text() {
    assert!(matches!(parse_rpm("NaN"), Err(_)));
    assert!(matches!(parse_rpm("inf"), Err(_)));
    assert!(matches!(parse_rpm("infinity"), Err(_)));
}

#[test]
fn rpm_rejects_out_of_range() {
    assert_eq!(parse_rpm("50001"), Err(ParseError::OutOfRange));
    assert_eq!(parse_rpm("999999"), Err(ParseError::OutOfRange));
}

#[test]
fn rpm_rejects_empty() {
    assert_eq!(parse_rpm(""), Err(ParseError::Empty));
}

#[test]
fn rpm_accepts_exact_ceiling() {
    assert_eq!(parse_rpm("50000"), Ok(flt(50000.0)));
    assert_eq!(parse_rpm("50000.0"), Ok(flt(50000.0)));
}

#[test]
fn speeds_are_read_as_the_machine_reads_them() {
    for text in [
        "0.1", "0.2", "0.3", "1234.5678", "49999.999", "16777.217", "0.000001", "3.14159265358979",
        "00042.50", "33554.4326171875", "0.00000000000000000000000000000000000000000000014",
    ] {
        assert_eq!(parse_rpm(text), Ok(flt(text.parse::<f32>().unwrap())), "{text}");
    }
}

#[test]
fn leading_zeros_of_a_fan_index_are_refused() {
    assert_eq!(parse_fan_index("00"), Err(ParseError::OutOfRange));
    assert_eq!(parse_fan_index("07"), Err(ParseError::OutOfRange));
    assert_eq!(parse_fan_index("0"), Ok(0));
}

#[test]
fn parse_errors_are_told_in_words() {
    assert_eq!(ParseError::Empty.message(), "value is empty");
    assert_eq!(ParseError::LeadingSign.message(), "leading '+' or '-' is not allowed");
}
