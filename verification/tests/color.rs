use sl_map_tools::color::{parse_color, ColorParseError};

#[test]
fn short_and_long_codes() {
    assert_eq!(parse_color("#f00"), Ok([0xff, 0, 0, 0xff]));
    assert_eq!(parse_color("#0FFF"), Ok([0, 0xff, 0xff, 0xff]));
    assert_eq!(parse_color("#DDA0DD"), Ok([0xdd, 0xa0, 0xdd, 0xff]));
    assert_eq!(parse_color("#F0FFFF80"), Ok([0xf0, 0xff, 0xff, 0x80]));
    assert_eq!(parse_color("#1234"), Ok([0x11, 0x22, 0x33, 0x44]));
}

#[test]
fn a_plus_sign_may_lead_a_pair_of_a_long_code() {
    assert_eq!(parse_color("#+f0000"), Ok([0x0f, 0, 0, 0xff]));
    assert_eq!(parse_color("#+f0"), Err(ColorParseError::InvalidDigit));
}

#[test]
fn colour_errors() {
    assert_eq!(parse_color(""), Err(ColorParseError::Empty));
    assert_eq!(parse_color("f00"), Err(ColorParseError::InvalidFormat));
    assert_eq!(parse_color("#ff00"), Ok([0xff, 0xff, 0, 0]));
    assert_eq!(parse_color("#ff0000f"), Err(ColorParseError::InvalidFormat));
    assert_eq!(parse_color("#gg0000"), Err(ColorParseError::InvalidDigit));
    assert_eq!(parse_color(" #f00"), Err(ColorParseError::InvalidFormat));
    // two bytes for the é make a length of 4 bytes: a wrong digit
    assert_eq!(parse_color("#é1"), Err(ColorParseError::InvalidDigit));
    // 2 characters but 3 bytes: a wrong length
    assert_eq!(parse_color("#é"), Err(ColorParseError::InvalidFormat));
    // 4 characters but 5 bytes: the long-alpha short form, a wrong digit
    assert_eq!(parse_color("#éff"), Err(ColorParseError::InvalidDigit));
}
