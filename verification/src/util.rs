//! Colours, and reading them from their hexadecimal form.

use vstd::prelude::*;
use vstd::string::*;
use byteorder::{BigEndian, ByteOrder};
use crate::config::outcome;
use crate::error::{Error, ErrorView};
use crate::text::{parse_u32, parsed_u32};

verus! {

/// A colour: red, green, blue and opacity.
#[derive(Clone, Copy, Debug, PartialEq, Eq, Structural)]
pub struct Color {
    pub r: u8,
    pub g: u8,
    pub b: u8,
    pub a: u8,
}

impl Color {
    /// Opaque white.
    pub open spec fn white() -> Color {
        Color { r: 255, g: 255, b: 255, a: 255 }
    }

    /// Opaque white.
    pub fn new_white() -> (c: Color)
        ensures
            c == Color::white(),
    {
        Color { r: 255, g: 255, b: 255, a: 255 }
    }
}

/// The four bytes of a number, the most significant first.
pub open spec fn be_bytes(n: u32) -> Seq<u8> {
    seq![
        (n / 0x100_0000) as u8,
        ((n / 0x1_0000) % 0x100) as u8,
        ((n / 0x100) % 0x100) as u8,
        (n % 0x100) as u8,
    ]
}

/// The colour that a hexadecimal text stands for: six digits give red,
/// green and blue of an opaque colour, eight digits give the opacity too.
pub open spec fn color_of(hex: Seq<char>) -> Result<Color, ErrorView> {
    match parsed_u32(hex, 16) {
        None => Err(ErrorView::Msg("Failed to decode hex"@)),
        Some(n) => {
            let bytes = be_bytes(n);
            if hex.len() == 6 {
                Ok(Color { r: bytes[1], g: bytes[2], b: bytes[3], a: 255 })
            } else if hex.len() == 8 {
                Ok(Color { r: bytes[0], g: bytes[1], b: bytes[2], a: bytes[3] })
            } else {
                Err(ErrorView::ConfigError("Hex colors must have six or eight characters"@))
            }
        },
    }
}

/// Calls `byteorder::BigEndian::write_u32` on a buffer of four bytes. The
/// crate copies the number's big-endian representation into the buffer: the
/// contract states those four bytes.
#[verifier::external_body]
fn big_endian_bytes(n: u32) -> (bytes: [u8; 4])
    ensures
        bytes@ == be_bytes(n),
{
    let mut bytes = [0u8; 4];
    BigEndian::write_u32(&mut bytes, n);
    bytes
}

/// Creates a colour from a hex string.
pub fn hex_color(hex: &str) -> (r: Result<Color, Error>)
    ensures
        outcome(r) == color_of(hex@),
{
    let integer: u32 = match parse_u32(hex, 16) {
        Some(n) => n,
        None => {
            return Err(Error::msg("Failed to decode hex"));
        },
    };
    let bytes: [u8; 4] = big_endian_bytes(integer);
    let len: usize = hex.unicode_len();
    if len == 6 {
        Ok(Color { r: bytes[1], g: bytes[2], b: bytes[3], a: 255 })
    } else if len == 8 {
        Ok(Color { r: bytes[0], g: bytes[1], b: bytes[2], a: bytes[3] })
    } else {
        Err(Error::config("Hex colors must have six or eight characters"))
    }
}

} // verus!
