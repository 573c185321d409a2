//! Colors and color profiles.

use vstd::prelude::*;

verus! {

/// A terminal color.
#[derive(Debug, Clone, Copy, PartialEq, Eq, Hash, Structural)]
pub enum Color {
    /// An index into the 256-color palette.
    Indexed(u8),
    /// A 24-bit color: red, green, blue.
    Rgb(u8, u8, u8),
}

/// How many colors the output can show.
#[derive(Debug, Clone, Copy, PartialEq, Eq, Hash, Structural)]
pub enum Profile {
    /// Not a terminal: no escape sequences for style.
    NoTty,
    /// No color.
    Ascii,
    /// 16 colors.
    Ansi,
    /// 256 colors.
    Ansi256,
    /// 24-bit color.
    TrueColor,
}

/// One level of the 6×6×6 color cube.
pub open spec fn cube_level(n: int) -> int {
    if n == 0 {
        0
    } else {
        55 + 40 * n
    }
}

/// The conventional 24-bit value of one of the first sixteen palette entries.
pub open spec fn base_color(i: int) -> (u8, u8, u8) {
    if i == 0 {
        (0, 0, 0)
    } else if i == 1 {
        (128, 0, 0)
    } else if i == 2 {
        (0, 128, 0)
    } else if i == 3 {
        (128, 128, 0)
    } else if i == 4 {
        (0, 0, 128)
    } else if i == 5 {
        (128, 0, 128)
    } else if i == 6 {
        (0, 128, 128)
    } else if i == 7 {
        (192, 192, 192)
    } else if i == 8 {
        (128, 128, 128)
    } else if i == 9 {
        (255, 0, 0)
    } else if i == 10 {
        (0, 255, 0)
    } else if i == 11 {
        (255, 255, 0)
    } else if i == 12 {
        (0, 0, 255)
    } else if i == 13 {
        (255, 0, 255)
    } else if i == 14 {
        (0, 255, 255)
    } else {
        (255, 255, 255)
    }
}

/// The conventional 24-bit value of a palette entry: sixteen named colors, the
/// 6×6×6 cube, and a gray ramp.
pub open spec fn palette_color(i: u8) -> (u8, u8, u8) {
    if i < 16 {
        base_color(i as int)
    } else if i < 232 {
        let n = i - 16;
        (
            cube_level(n / 36) as u8,
            cube_level((n / 6) % 6) as u8,
            cube_level(n % 6) as u8,
        )
    } else {
        let v = (8 + 10 * (i - 232)) as u8;
        (v, v, v)
    }
}

fn cube(n: u8) -> (r: u8)
    requires
        n < 6,
    ensures
        r == cube_level(n as int),
{
    if n == 0 {
        0
    } else {
        55 + 40 * n
    }
}

impl Color {
    /// The 24-bit value of the color.
    pub open spec fn spec_rgb(self) -> (u8, u8, u8) {
        match self {
            Color::Rgb(r, g, b) => (r, g, b),
            Color::Indexed(i) => palette_color(i),
        }
    }

    /// Return the 24-bit value of the color.
    pub fn to_rgb(self) -> (r: (u8, u8, u8))
        ensures
            r == self.spec_rgb(),
    {
        match self {
            Color::Rgb(r, g, b) => (r, g, b),
            Color::Indexed(i) => match i {
                0 => (0, 0, 0),
                1 => (128, 0, 0),
                2 => (0, 128, 0),
                3 => (128, 128, 0),
                4 => (0, 0, 128),
                5 => (128, 0, 128),
                6 => (0, 128, 128),
                7 => (192, 192, 192),
                8 => (128, 128, 128),
                9 => (255, 0, 0),
                10 => (0, 255, 0),
                11 => (255, 255, 0),
                12 => (0, 0, 255),
                13 => (255, 0, 255),
                14 => (0, 255, 255),
                15 => (255, 255, 255),
                16..=231 => {
                    let n: u8 = i - 16;
                    (cube(n / 36), cube((n / 6) % 6), cube(n % 6))
                },
                _ => {
                    let v: u8 = 8 + 10 * (i - 232);
                    (v, v, v)
                },
            },
        }
    }
}

impl Profile {
    /// Whether the profile shows fewer colors than [`Profile::TrueColor`].
    #[verifier::allow_in_spec]
    pub fn below_true_color(self) -> bool
        returns
            !(self is TrueColor),
    {
        !matches!(self, Profile::TrueColor)
    }
}

} // verus!
