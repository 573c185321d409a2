//! Positions and sizes in cells.

use vstd::prelude::*;

verus! {

/// A zero-based cell position.
#[derive(Debug, Clone, Copy, PartialEq, Eq, Hash, Structural)]
pub struct Position {
    /// Column.
    pub x: u16,
    /// Row.
    pub y: u16,
}

impl Position {
    /// The position at column `x`, row `y`.
    #[verifier::allow_in_spec]
    pub fn new(x: u16, y: u16) -> Position
        returns
            (Position { x, y }),
    {
        Position { x, y }
    }

    /// The top-left position.
    #[verifier::allow_in_spec]
    pub fn origin() -> Position
        returns
            (Position { x: 0, y: 0 }),
    {
        Position { x: 0, y: 0 }
    }
}

/// A width and a height.
#[derive(Debug, Clone, Copy, PartialEq, Eq, Hash, Structural)]
pub struct Size {
    /// Number of columns.
    pub width: u16,
    /// Number of rows.
    pub height: u16,
}

impl Size {
    /// The size of `width` columns and `height` rows.
    #[verifier::allow_in_spec]
    pub fn new(width: u16, height: u16) -> Size
        returns
            (Size { width, height }),
    {
        Size { width, height }
    }
}

/// The size of a terminal window in cells and, where known, in pixels.
#[derive(Debug, Clone, Copy, PartialEq, Eq, Hash, Structural)]
pub struct Winsize {
    /// Rows.
    pub row: u16,
    /// Columns.
    pub col: u16,
    /// Width in pixels, or zero.
    pub xpixel: u16,
    /// Height in pixels, or zero.
    pub ypixel: u16,
}

} // verus!
