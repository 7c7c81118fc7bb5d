use cargo_embed::hex::{parse_hex_u16, HexError};

#[test]
fn identifiers_are_hexadecimal() {
    assert_eq!(parse_hex_u16("1366"), Ok(0x1366));
    assert_eq!(parse_hex_u16("FfFf"), Ok(0xffff));
    assert_eq!(parse_hex_u16("+0d28"), Ok(0x0d28));
    assert_eq!(parse_hex_u16("00000001"), Ok(1));
}

#[test]
fn each_error_has_its_input() {
    assert_eq!(parse_hex_u16(""), Err(HexError::Empty));
    assert_eq!(parse_hex_u16("0x12"), Err(HexError::InvalidDigit));
    assert_eq!(parse_hex_u16("+"), Err(HexError::InvalidDigit));
    assert_eq!(parse_hex_u16("-1"), Err(HexError::InvalidDigit));
    assert_eq!(parse_hex_u16(" 1"), Err(HexError::InvalidDigit));
    assert_eq!(parse_hex_u16("10000"), Err(HexError::TooLarge));
    assert_eq!(parse_hex_u16("fffffz"), Err(HexError::TooLarge));
    assert_eq!(parse_hex_u16("ffffz"), Err(HexError::InvalidDigit));
}

#[test]
fn agrees_with_std() {
    for text in [
        "", "+", "-", "++1", "+-1", "-0", "1", "0", "00", "f", "F", "g", "1g", "g1", "abcd", "ABCD", "abcde",
        "0abcd", "ffff", "10000", "ffffz", "fffffz", "zfffff", "1_0", "1 ", " 1", "é", "1é", "١", "+ffff",
        "+10000", "000000000000000000", "0000000000000ffff",
    ] {
        let expected = u16::from_str_radix(text, 16);
        match (parse_hex_u16(text), expected) {
            (Ok(value), Ok(expected)) => assert_eq!(value, expected, "{text:?}"),
            (Err(e), Err(expected)) => assert_eq!(e.message(), expected.to_string(), "{text:?}"),
            (r, expected) => panic!("{text:?}: {r:?} and {expected:?}"),
        }
    }
}

#[test]
fn every_identifier_is_read_back() {
    for id in 0..=u16::MAX {
        assert_eq!(parse_hex_u16(&format!("{id:04x}")), Ok(id));
    }
}
