//! How an item is drawn inside its block of cells.

use vstd::prelude::*;
use crate::config::{boolean_setting, integer_setting, or_default, outcome, unwrap_or, Config, Value};
use crate::error::{Error, ErrorView};
use crate::util::Color;

verus! {

/// Configure how to draw an item.
#[derive(Clone, Copy, Debug, PartialEq, Eq, Structural)]
pub struct DrawConfig {
    /// Whether to vertically centre the item.
    pub vertical_centre_align: bool,
    /// Whether to horizontally centre the item.
    pub horizontal_centre_align: bool,
    /// Vertical padding in pixels.
    pub vertical_padding: u32,
    /// Horizontal padding in pixels.
    pub horizontal_padding: u32,
}

/// Dictate how to draw text.
#[derive(Clone, Copy, Debug, PartialEq, Eq, Structural)]
pub struct TextConfig {
    pub draw_config: DrawConfig,
    pub color: Color,
}

/// The drawing settings of a dictionary, and what is left of the
/// dictionary once they were read. Each setting is read in turn and taken
/// out; the first that has the wrong kind of value is the error, and what
/// comes after it is not read. The alignments are on and the paddings 5 and
/// 10 pixels unless set; a padding is cut to 32 bits.
pub open spec fn draw_settings(map: Map<Seq<char>, Value>) -> (
    Result<DrawConfig, ErrorView>,
    Map<Seq<char>, Value>,
) {
    let m1 = map.remove("vertical-centre-align"@);
    let m2 = m1.remove("horizontal-centre-align"@);
    let m3 = m2.remove("vertical-padding"@);
    let m4 = m3.remove("horizontal-padding"@);
    let vertical = or_default(
        boolean_setting(map, "vertical-centre-align"@, "into_bool"@),
        true,
    );
    let horizontal = or_default(
        boolean_setting(m1, "horizontal-centre-align"@, "into_bool"@),
        true,
    );
    let vertical_padding = or_default(
        integer_setting(m2, "vertical-padding"@, "into_i64"@),
        5i64,
    );
    let horizontal_padding = or_default(
        integer_setting(m3, "horizontal-padding"@, "into_i64"@),
        10i64,
    );
    if vertical is Err {
        (Err(vertical->Err_0), m1)
    } else if horizontal is Err {
        (Err(horizontal->Err_0), m2)
    } else if vertical_padding is Err {
        (Err(vertical_padding->Err_0), m3)
    } else if horizontal_padding is Err {
        (Err(horizontal_padding->Err_0), m4)
    } else {
        (
            Ok(
                DrawConfig {
                    vertical_centre_align: vertical->Ok_0,
                    horizontal_centre_align: horizontal->Ok_0,
                    vertical_padding: vertical_padding->Ok_0 as u32,
                    horizontal_padding: horizontal_padding->Ok_0 as u32,
                },
            ),
            m4,
        )
    }
}

/// The number cut to its lower 32 bits.
pub fn low_bits(value: i64) -> (r: u32)
    ensures
        r == value as u32,
{
    #[verifier::truncate]
    (value as u32)
}

impl DrawConfig {
    /// Reads the drawing settings from a dictionary and takes them out.
    pub fn parse(config: &mut Config) -> (r: Result<DrawConfig, Error>)
        ensures
            (outcome(r), final(config)@) == draw_settings(old(config)@),
    {
        let vertical_centre_align = unwrap_or(
            config.take_bool("vertical-centre-align", "into_bool"),
            true,
        )?;
        let horizontal_centre_align = unwrap_or(
            config.take_bool("horizontal-centre-align", "into_bool"),
            true,
        )?;
        let vertical_padding = unwrap_or(config.take_i64("vertical-padding", "into_i64"), 5)?;
        let horizontal_padding = unwrap_or(config.take_i64("horizontal-padding", "into_i64"), 10)?;
        Ok(
            DrawConfig {
                vertical_centre_align,
                horizontal_centre_align,
                vertical_padding: low_bits(vertical_padding),
                horizontal_padding: low_bits(horizontal_padding),
            },
        )
    }
}

/// The text settings of a dictionary, and what is left of the dictionary
/// once they were read: its drawing settings, in white.
pub open spec fn text_settings(map: Map<Seq<char>, Value>) -> (
    Result<TextConfig, ErrorView>,
    Map<Seq<char>, Value>,
) {
    (
        match draw_settings(map).0 {
            Ok(draw_config) => Ok(TextConfig { draw_config, color: Color::white() }),
            Err(e) => Err(e),
        },
        draw_settings(map).1,
    )
}

impl TextConfig {
    /// Reads the text settings from a dictionary and takes them out.
    pub fn parse(config: &mut Config) -> (r: Result<TextConfig, Error>)
        ensures
            (outcome(r), final(config)@) == text_settings(old(config)@),
    {
        Ok(TextConfig { draw_config: DrawConfig::parse(config)?, color: Color::new_white() })
    }
}

} // verus!
