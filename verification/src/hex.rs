//! Colours written as `#rrggbb`.

use vstd::prelude::*;
use crate::colors::Rgb;

verus! {

/// Why a text is no colour.
#[derive(Copy, Clone, Debug, PartialEq, Eq, Structural)]
pub enum ColorError {
    /// The text is not seven bytes long.
    Length,
    /// One of the three channels is no number in base 16.
    Range,
}

impl ColorError {
    pub open spec fn message_text(self) -> Seq<char> {
        match self {
            ColorError::Length => "hex color must have lenght 7"@,
            ColorError::Range => "color values out of range"@,
        }
    }

    /// What is said to the user of the error.
    pub fn message(&self) -> (s: &'static str)
        ensures
            s@ == self.message_text(),
    {
        match self {
            ColorError::Length => "hex color must have lenght 7",
            ColorError::Range => "color values out of range",
        }
    }
}

/// The value of a digit in base 16, written in either case.
pub open spec fn hex_digit(b: u8) -> Option<u8> {
    if 48 <= b <= 57 {
        Some((b - 48) as u8)
    } else if 97 <= b <= 102 {
        Some((b - 87) as u8)
    } else if 65 <= b <= 70 {
        Some((b - 55) as u8)
    } else {
        None
    }
}

/// The value of one channel: two digits in base 16, or a plus sign and one
/// digit.
pub open spec fn hex_pair(a: u8, b: u8) -> Option<u8> {
    if a == 43 {
        hex_digit(b)
    } else {
        match (hex_digit(a), hex_digit(b)) {
            (Some(x), Some(y)) => Some((16 * x + y) as u8),
            _ => None,
        }
    }
}

/// The colour that seven bytes stand for: the first byte is passed over,
/// each two of the others give one channel.
pub open spec fn hex_color(s: Seq<u8>) -> Result<Rgb, ColorError> {
    if s.len() != 7 {
        Err(ColorError::Length)
    } else {
        match (hex_pair(s[1], s[2]), hex_pair(s[3], s[4]), hex_pair(s[5], s[6])) {
            (Some(r), Some(g), Some(b)) => Ok(Rgb(r, g, b)),
            _ => Err(ColorError::Range),
        }
    }
}

fn parse_hex_digit(b: u8) -> (res: Option<u8>)
    ensures
        res == hex_digit(b),
{
    if 48 <= b && b <= 57 {
        Some(b - 48)
    } else if 97 <= b && b <= 102 {
        Some(b - 87)
    } else if 65 <= b && b <= 70 {
        Some(b - 55)
    } else {
        None
    }
}

fn parse_hex_pair(a: u8, b: u8) -> (res: Option<u8>)
    ensures
        res == hex_pair(a, b),
{
    if a == 43 {
        return parse_hex_digit(b);
    }
    match (parse_hex_digit(a), parse_hex_digit(b)) {
        (Some(x), Some(y)) => Some(16 * x + y),
        _ => None,
    }
}

/// Reads a colour written as `#rrggbb`.
pub fn parse_hex_color(s: &[u8]) -> (res: Result<Rgb, ColorError>)
    ensures
        res == hex_color(s@),
{
    if s.len() != 7 {
        return Err(ColorError::Length);
    }
    let r = parse_hex_pair(s[1], s[2]);
    let g = parse_hex_pair(s[3], s[4]);
    let b = parse_hex_pair(s[5], s[6]);
    match (r, g, b) {
        (Some(r), Some(g), Some(b)) => Ok(Rgb(r, g, b)),
        _ => Err(ColorError::Range),
    }
}

} // verus!
