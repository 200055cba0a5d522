//! The board: a 7 x 24 grid of integer cells, split into two halves.

use vstd::prelude::*;

verus! {

/// Number of columns of the board.
pub const GRID_WIDTH: i32 = 7;

/// Number of rows of the board.
pub const GRID_HEIGHT: i32 = 24;

/// Number of rows of one player's half.
pub const HALF_HEIGHT: i32 = 12;

/// A cell of the board in the canonical frame: `(0, 0)` is the bottom-left
/// corner of the first player's side.
#[derive(Clone, Copy, Debug, PartialEq, Eq, Structural)]
pub struct Position {
    pub x: i32,
    pub y: i32,
}

/// Distance between two integers.
pub open spec fn gap(a: int, b: int) -> int {
    if a >= b {
        a - b
    } else {
        b - a
    }
}

/// Manhattan distance between the cells `(ax, ay)` and `(bx, by)`.
pub open spec fn manhattan(ax: int, ay: int, bx: int, by: int) -> int {
    gap(ax, bx) + gap(ay, by)
}

/// Two cells are orthogonally adjacent: they lie in one row or one column,
/// one step apart.
pub open spec fn adjacent(ax: int, ay: int, bx: int, by: int) -> bool {
    manhattan(ax, ay, bx, by) == 1
}

/// The row of the canonical frame that a player means by `y`: the second
/// player sees the board upside down.
pub open spec fn canonical_row(y: int, second: bool) -> int {
    if second {
        GRID_HEIGHT - 1 - y
    } else {
        y
    }
}

impl Position {
    /// The cell lies on the board.
    pub open spec fn in_bounds(self) -> bool {
        0 <= self.x < GRID_WIDTH && 0 <= self.y < GRID_HEIGHT
    }

    /// The cell lies in the half of the first (`second == false`) or of the
    /// second player.
    pub open spec fn in_half(self, second: bool) -> bool {
        &&& 0 <= self.x < GRID_WIDTH
        &&& if second {
            HALF_HEIGHT <= self.y < GRID_HEIGHT
        } else {
            0 <= self.y < HALF_HEIGHT
        }
    }

    /// The same cell seen from the other side of the board.
    pub open spec fn mirrored(self) -> Position {
        Position { x: self.x, y: (GRID_HEIGHT - 1 - self.y) as i32 }
    }

    /// The canonical cell that a player means by `self`.
    pub open spec fn canonical(self, second: bool) -> Position {
        if second {
            self.mirrored()
        } else {
            self
        }
    }

    pub fn new(x: i32, y: i32) -> (p: Position)
        ensures
            p.x == x,
            p.y == y,
    {
        Position { x, y }
    }

    pub fn is_in_bounds(&self) -> (r: bool)
        ensures
            r == self.in_bounds(),
    {
        0 <= self.x && self.x < GRID_WIDTH && 0 <= self.y && self.y < GRID_HEIGHT
    }

    pub fn is_in_half(&self, second: bool) -> (r: bool)
        ensures
            r == self.in_half(second),
    {
        if self.x < 0 || self.x >= GRID_WIDTH {
            false
        } else if second {
            HALF_HEIGHT <= self.y && self.y < GRID_HEIGHT
        } else {
            0 <= self.y && self.y < HALF_HEIGHT
        }
    }

    /// The cell of the canonical frame that a player means by a cell of the
    /// board.
    pub fn to_canonical(&self, second: bool) -> (p: Position)
        requires
            self.in_bounds(),
        ensures
            p == self.canonical(second),
            p.in_bounds(),
            p.x == self.x,
            p.y == canonical_row(self.y as int, second),
    {
        if second {
            Position { x: self.x, y: GRID_HEIGHT - 1 - self.y }
        } else {
            *self
        }
    }

    /// Whether an animal on `self` can strike the cell `other`: exactly when
    /// the two cells are orthogonally adjacent.
    pub fn can_hit(&self, other: &Position) -> (r: bool)
        ensures
            r == adjacent(self.x as int, self.y as int, other.x as int, other.y as int),
    {
        if self.x == other.x {
            (self.y < i32::MAX && self.y + 1 == other.y) || (other.y < i32::MAX && other.y + 1
                == self.y)
        } else if self.y == other.y {
            (self.x < i32::MAX && self.x + 1 == other.x) || (other.x < i32::MAX && other.x + 1
                == self.x)
        } else {
            false
        }
    }
}

} // verus!
