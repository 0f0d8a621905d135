//! Colours given as hex codes on the command line: `#RGB`, `#RGBA`,
//! `#RRGGBB` or `#RRGGBBAA` (case-insensitive), read with the `hex_color`
//! crate.
use vstd::prelude::*;

verus! {

/// why a text is not a hex colour code
#[derive(Debug, Clone, Copy, PartialEq, Eq, Structural)]
pub enum ColorParseError {
    /// the text is empty
    Empty,
    /// the text does not start with `#` or has a length (in UTF-8 bytes)
    /// other than 4, 5, 7 or 9
    InvalidFormat,
    /// the shape is right but a digit is not hexadecimal
    InvalidDigit,
}

/// the number of bytes of `c` in UTF-8
pub open spec fn spec_utf8_width(c: char) -> int {
    if (c as u32) < 0x80 {
        1
    } else if (c as u32) < 0x800 {
        2
    } else if (c as u32) < 0x10000 {
        3
    } else {
        4
    }
}

/// the number of bytes of `s` in UTF-8
pub open spec fn spec_utf8_len(s: Seq<char>) -> int
    decreases s.len(),
{
    if s.len() == 0 {
        0
    } else {
        spec_utf8_len(s.drop_last()) + spec_utf8_width(s.last())
    }
}

/// `c` is a hexadecimal digit (either case)
pub open spec fn spec_is_hex_digit(c: char) -> bool {
    ('0' <= c <= '9') || ('a' <= c <= 'f') || ('A' <= c <= 'F')
}

/// the value of the hexadecimal digit `c`
pub open spec fn spec_hex_value(c: char) -> int {
    if '0' <= c <= '9' {
        c as int - '0' as int
    } else if 'a' <= c <= 'f' {
        c as int - 'a' as int + 10
    } else {
        c as int - 'A' as int + 10
    }
}

/// the byte written by the two characters `c1 c2` of a long code, read as a
/// base 16 `u8` (which takes an optional leading `+`), if they write one
pub open spec fn spec_pair_value(c1: char, c2: char) -> Option<int> {
    if c1 == '+' {
        if spec_is_hex_digit(c2) {
            Some(spec_hex_value(c2))
        } else {
            None
        }
    } else if spec_is_hex_digit(c1) && spec_is_hex_digit(c2) {
        Some(16 * spec_hex_value(c1) + spec_hex_value(c2))
    } else {
        None
    }
}

/// the colour `(red, green, blue, alpha)` that the text `s` codes: `#`
/// and then 3 or 4 digits, each standing for itself repeated (`f` is
/// `0xff`), or 6 or 8 digits, two per channel; without an alpha digit the
/// alpha is `0xff`. The length is counted in UTF-8 bytes, so a text with a
/// non-ASCII character after the `#` has a wrong digit when its byte length
/// is one of the four.
pub open spec fn spec_parse_color(s: Seq<char>) -> Result<(u8, u8, u8, u8), ColorParseError> {
    let n = spec_utf8_len(s);
    if s.len() == 0 {
        Err(ColorParseError::Empty)
    } else if s[0] != '#' {
        Err(ColorParseError::InvalidFormat)
    } else if n == 4 || n == 5 {
        if s.len() == n && spec_is_hex_digit(s[1]) && spec_is_hex_digit(s[2]) && spec_is_hex_digit(
            s[3],
        ) && (n == 4 || spec_is_hex_digit(s[4])) {
            Ok(
                (
                    (17 * spec_hex_value(s[1])) as u8,
                    (17 * spec_hex_value(s[2])) as u8,
                    (17 * spec_hex_value(s[3])) as u8,
                    if n == 5 {
                        (17 * spec_hex_value(s[4])) as u8
                    } else {
                        255u8
                    },
                ),
            )
        } else {
            Err(ColorParseError::InvalidDigit)
        }
    } else if n == 7 || n == 9 {
        if s.len() == n && spec_pair_value(s[1], s[2]) is Some && spec_pair_value(s[3], s[4]) is Some
            && spec_pair_value(s[5], s[6]) is Some && (n == 7 || spec_pair_value(s[7], s[8]) is Some) {
            Ok(
                (
                    spec_pair_value(s[1], s[2]).unwrap() as u8,
                    spec_pair_value(s[3], s[4]).unwrap() as u8,
                    spec_pair_value(s[5], s[6]).unwrap() as u8,
                    if n == 9 {
                        spec_pair_value(s[7], s[8]).unwrap() as u8
                    } else {
                        255u8
                    },
                ),
            )
        } else {
            Err(ColorParseError::InvalidDigit)
        }
    } else {
        Err(ColorParseError::InvalidFormat)
    }
}

/// Reads a hex colour code with `hex_color::HexColor::parse` and gives its
/// red, green, blue and alpha bytes (`HexColor::to_be_bytes`), or the
/// error: `Empty`, `InvalidFormat`, or `InvalidDigit` (for `InvalidDigit`
/// and any variant the crate may add). The contract states the crate's
/// grammar, as its documentation and source give it.
#[verifier::external_body]
fn hex_color_parse(s: &str) -> (r: Result<(u8, u8, u8, u8), ColorParseError>)
    ensures
        r == spec_parse_color(s@),
{
    match hex_color::HexColor::parse(s) {
        Ok(c) => {
            let [r, g, b, a] = c.to_be_bytes();
            Ok((r, g, b, a))
        },
        Err(hex_color::ParseHexColorError::Empty) => Err(ColorParseError::Empty),
        Err(hex_color::ParseHexColorError::InvalidFormat) => Err(ColorParseError::InvalidFormat),
        Err(_) => Err(ColorParseError::InvalidDigit),
    }
}

/// the red, green, blue and alpha bytes of the colour that the hex code
/// `s` writes (see [`spec_parse_color`]), or why it is not one
pub fn parse_color(s: &str) -> (r: Result<[u8; 4], ColorParseError>)
    ensures
        match spec_parse_color(s@) {
            Ok(c) => r matches Ok(b) && b@ == seq![c.0, c.1, c.2, c.3],
            Err(e) => r == Err::<[u8; 4], ColorParseError>(e),
        },
{
    match hex_color_parse(s) {
        Ok((r, g, b, a)) => {
            let bytes = [r, g, b, a];
            proof {
                assert(bytes@ =~= seq![r, g, b, a]);
            }
            Ok(bytes)
        },
        Err(e) => Err(e),
    }
}

} // verus!
