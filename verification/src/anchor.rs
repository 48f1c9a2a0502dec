//! The screen corner that the panel's position is measured from.

use vstd::prelude::*;
use vstd::string::*;
use crate::error::{Error, ErrorView};
use crate::text::str_eq;

verus! {

/// Where to anchor the panel.
#[derive(Clone, Copy, Debug, PartialEq, Eq, Structural)]
pub enum Anchor {
    TopLeft,
    TopRight,
    BottomLeft,
    BottomRight,
}

/// A position on the screen, in pixels from its top-left corner. A negative
/// coordinate lies off the screen.
#[derive(Clone, Copy, Debug, PartialEq, Eq, Structural)]
pub struct Point {
    pub x: i64,
    pub y: i64,
}

/// The anchor that a token names.
pub open spec fn anchor_of(token: Seq<char>) -> Option<Anchor> {
    if token == "top-left"@ {
        Some(Anchor::TopLeft)
    } else if token == "top-right"@ {
        Some(Anchor::TopRight)
    } else if token == "bottom-left"@ {
        Some(Anchor::BottomLeft)
    } else if token == "bottom-right"@ {
        Some(Anchor::BottomRight)
    } else {
        None
    }
}

impl Anchor {
    /// The anchor is at the left edge of the screen.
    pub open spec fn is_left(self) -> bool {
        self == Anchor::TopLeft || self == Anchor::BottomLeft
    }

    /// The anchor is at the top edge of the screen.
    pub open spec fn is_top(self) -> bool {
        self == Anchor::TopLeft || self == Anchor::TopRight
    }

    /// Where the window's left edge goes: `edge_distance` from the screen's
    /// left edge, or so that its right edge is `edge_distance` from the
    /// screen's right edge.
    pub open spec fn x_for(self, edge_distance: int, screen_width: int, window_width: int) -> int {
        if self.is_left() {
            edge_distance
        } else {
            screen_width - window_width - edge_distance
        }
    }

    /// Where the window's top edge goes, in the same way.
    pub open spec fn y_for(self, edge_distance: int, screen_height: int, window_height: int) -> int {
        if self.is_top() {
            edge_distance
        } else {
            screen_height - window_height - edge_distance
        }
    }

    /// Reads an anchor from its token: `top-left`, `top-right`,
    /// `bottom-left` or `bottom-right`, exactly.
    pub fn from_str(s: &str) -> (r: Result<Anchor, Error>)
        ensures
            match anchor_of(s@) {
                Some(a) => r == Ok::<Anchor, Error>(a),
                None => r matches Err(e) && e@ == ErrorView::ConfigError(
                    "Uncrecognized anchor: "@ + s@,
                ),
            },
    {
        if str_eq(s, "top-left") {
            Ok(Anchor::TopLeft)
        } else if str_eq(s, "top-right") {
            Ok(Anchor::TopRight)
        } else if str_eq(s, "bottom-left") {
            Ok(Anchor::BottomLeft)
        } else if str_eq(s, "bottom-right") {
            Ok(Anchor::BottomRight)
        } else {
            Err(Error::ConfigError(String::from_str("Uncrecognized anchor: ").concat(s)))
        }
    }

    /// Where a window of the given size goes on a screen of the given size.
    pub fn location(
        self,
        edge_distance: u32,
        screen_width: u32,
        screen_height: u32,
        window_width: u32,
        window_height: u32,
    ) -> (p: Point)
        ensures
            p.x == self.x_for(edge_distance as int, screen_width as int, window_width as int),
            p.y == self.y_for(edge_distance as int, screen_height as int, window_height as int),
    {
        let x: i64 = match self {
            Anchor::TopLeft | Anchor::BottomLeft => edge_distance as i64,
            Anchor::TopRight | Anchor::BottomRight => screen_width as i64 - window_width as i64
                - edge_distance as i64,
        };
        let y: i64 = match self {
            Anchor::TopLeft | Anchor::TopRight => edge_distance as i64,
            Anchor::BottomLeft | Anchor::BottomRight => screen_height as i64 - window_height as i64
                - edge_distance as i64,
        };
        Point { x, y }
    }
}

} // verus!
