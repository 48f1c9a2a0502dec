use incredi::error::Error;
use incredi::util::{hex_color, Color};

#[test]
fn six_digits_give_an_opaque_colour() {
    assert_eq!(hex_color("ff8000"), Ok(Color { r: 255, g: 128, b: 0, a: 255 }));
    assert_eq!(hex_color("000000"), Ok(Color { r: 0, g: 0, b: 0, a: 255 }));
    assert_eq!(hex_color("FFFFFF"), Ok(Color { r: 255, g: 255, b: 255, a: 255 }));
    assert_eq!(hex_color("0a0B0c"), Ok(Color { r: 10, g: 11, b: 12, a: 255 }));
}

#[test]
fn eight_digits_give_the_opacity_too() {
    assert_eq!(hex_color("ff800040"), Ok(Color { r: 255, g: 128, b: 0, a: 64 }));
    assert_eq!(hex_color("01020304"), Ok(Color { r: 1, g: 2, b: 3, a: 4 }));
}

#[test]
fn a_plus_sign_counts_as_a_character() {
    // Five digits after the sign: the first of the three bytes is short.
    assert_eq!(hex_color("+12345"), Ok(Color { r: 0x01, g: 0x23, b: 0x45, a: 255 }));
}

#[test]
fn other_lengths_are_a_configuration_error() {
    for hex in ["f", "fff", "fffff", "fffffff"] {
        assert_eq!(
            hex_color(hex),
            Err(Error::ConfigError("Hex colors must have six or eight characters".to_string()))
        );
    }
}

#[test]
fn what_is_no_hexadecimal_number_is_not_decoded() {
    for hex in ["", "gggggg", "#ff8000", "ff 800", "fffffffff", "ff80００"] {
        assert_eq!(hex_color(hex), Err(Error::Msg("Failed to decode hex".to_string())));
    }
}

#[test]
fn white_is_opaque_white() {
    assert_eq!(Color::new_white(), Color { r: 255, g: 255, b: 255, a: 255 });
}
