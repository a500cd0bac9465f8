//! Terminal cells and rectangles.
use vstd::prelude::*;

verus! {

/// A cell of the terminal.
#[derive(Clone, Copy, Debug, PartialEq, Eq, Structural)]
pub struct Position {
    pub x: u16,
    pub y: u16,
}

/// A rectangle of cells: `width` columns from `x`, `height` rows from `y`.
#[derive(Clone, Copy, Debug, PartialEq, Eq, Structural)]
pub struct Rect {
    pub x: u16,
    pub y: u16,
    pub width: u16,
    pub height: u16,
}

/// `a + b`, or the largest `u16` where that does not fit.
pub open spec fn saturating_add_u16(a: u16, b: u16) -> u16 {
    if a + b > u16::MAX {
        u16::MAX
    } else {
        (a + b) as u16
    }
}

impl Rect {
    /// The column just right of the rectangle (saturating).
    pub open spec fn right_spec(self) -> u16 {
        saturating_add_u16(self.x, self.width)
    }

    /// The row just below the rectangle (saturating).
    pub open spec fn bottom_spec(self) -> u16 {
        saturating_add_u16(self.y, self.height)
    }

    /// Whether the cell `p` lies in the rectangle (ratatui's `Rect::contains`).
    pub open spec fn contains_spec(self, p: Position) -> bool {
        self.x <= p.x && p.x < self.right_spec() && self.y <= p.y && p.y < self.bottom_spec()
    }

    /// The column just right of the rectangle (saturating).
    pub fn right(self) -> (r: u16)
        ensures
            r == self.right_spec(),
    {
        self.x.saturating_add(self.width)
    }

    /// The row just below the rectangle (saturating).
    pub fn bottom(self) -> (r: u16)
        ensures
            r == self.bottom_spec(),
    {
        self.y.saturating_add(self.height)
    }

    /// Whether the cell `p` lies in the rectangle.
    pub fn contains(self, p: Position) -> (b: bool)
        ensures
            b == self.contains_spec(p),
    {
        p.x >= self.x && p.x < self.right() && p.y >= self.y && p.y < self.bottom()
    }
}

} // verus!
