//! The palette used for entities and log lines.

use vstd::prelude::*;

verus! {

/// A named colour of the palette.
#[derive(Clone, Copy, Debug, PartialEq, Eq, Structural)]
pub enum Color {
    White,
    Red,
    DarkRed,
    Orange,
    DarkerOrange,
    Yellow,
    LightYellow,
    Green,
    LightGreen,
    DesaturatedGreen,
    DarkerGreen,
    LightCyan,
    Sky,
    LightBlue,
    Violet,
    LightViolet,
}

impl Color {
    /// The red, green and blue components of the colour.
    pub open spec fn components(self) -> (u8, u8, u8) {
        match self {
            Color::White => (255u8, 255u8, 255u8),
            Color::Red => (255u8, 0u8, 0u8),
            Color::DarkRed => (191u8, 0u8, 0u8),
            Color::Orange => (255u8, 127u8, 0u8),
            Color::DarkerOrange => (127u8, 63u8, 0u8),
            Color::Yellow => (255u8, 255u8, 0u8),
            Color::LightYellow => (255u8, 255u8, 63u8),
            Color::Green => (0u8, 255u8, 0u8),
            Color::LightGreen => (63u8, 255u8, 63u8),
            Color::DesaturatedGreen => (63u8, 127u8, 63u8),
            Color::DarkerGreen => (0u8, 127u8, 0u8),
            Color::LightCyan => (63u8, 255u8, 255u8),
            Color::Sky => (0u8, 191u8, 255u8),
            Color::LightBlue => (63u8, 63u8, 255u8),
            Color::Violet => (127u8, 0u8, 255u8),
            Color::LightViolet => (159u8, 63u8, 255u8),
        }
    }

    /// The red, green and blue components of the colour.
    pub fn rgb(self) -> (c: (u8, u8, u8))
        ensures
            c == self.components(),
    {
        match self {
            Color::White => (255, 255, 255),
            Color::Red => (255, 0, 0),
            Color::DarkRed => (191, 0, 0),
            Color::Orange => (255, 127, 0),
            Color::DarkerOrange => (127, 63, 0),
            Color::Yellow => (255, 255, 0),
            Color::LightYellow => (255, 255, 63),
            Color::Green => (0, 255, 0),
            Color::LightGreen => (63, 255, 63),
            Color::DesaturatedGreen => (63, 127, 63),
            Color::DarkerGreen => (0, 127, 0),
            Color::LightCyan => (63, 255, 255),
            Color::Sky => (0, 191, 255),
            Color::LightBlue => (63, 63, 255),
            Color::Violet => (127, 0, 255),
            Color::LightViolet => (159, 63, 255),
        }
    }

    /// The palette colour with the given components, if there is one.
    pub fn from_rgb(r: u8, g: u8, b: u8) -> (c: Option<Color>)
        ensures
            match c {
                Some(k) => k.components() == (r, g, b),
                None => forall|k: Color| k.components() != (r, g, b),
            },
    {
        if r == 255 && g == 255 && b == 255 {
            Some(Color::White)
        } else if r == 255 && g == 0 && b == 0 {
            Some(Color::Red)
        } else if r == 191 && g == 0 && b == 0 {
            Some(Color::DarkRed)
        } else if r == 255 && g == 127 && b == 0 {
            Some(Color::Orange)
        } else if r == 127 && g == 63 && b == 0 {
            Some(Color::DarkerOrange)
        } else if r == 255 && g == 255 && b == 0 {
            Some(Color::Yellow)
        } else if r == 255 && g == 255 && b == 63 {
            Some(Color::LightYellow)
        } else if r == 0 && g == 255 && b == 0 {
            Some(Color::Green)
        } else if r == 63 && g == 255 && b == 63 {
            Some(Color::LightGreen)
        } else if r == 63 && g == 127 && b == 63 {
            Some(Color::DesaturatedGreen)
        } else if r == 0 && g == 127 && b == 0 {
            Some(Color::DarkerGreen)
        } else if r == 63 && g == 255 && b == 255 {
            Some(Color::LightCyan)
        } else if r == 0 && g == 191 && b == 255 {
            Some(Color::Sky)
        } else if r == 63 && g == 63 && b == 255 {
            Some(Color::LightBlue)
        } else if r == 127 && g == 0 && b == 255 {
            Some(Color::Violet)
        } else if r == 159 && g == 63 && b == 255 {
            Some(Color::LightViolet)
        } else {
            None
        }
    }
}

} // verus!
