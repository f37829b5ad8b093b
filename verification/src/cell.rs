//! What a grid cell holds.

use vstd::prelude::*;

verus! {

/// The content of one cell of the grid.
#[derive(Clone, Copy, Debug, PartialEq, Eq, Structural)]
pub enum Cell {
    Head,
    Tail,
    Food,
    Empty,
}

impl Cell {
    /// The number that stands for this content in a report of changed cells:
    /// `Head` is 0, `Tail` is 1, `Food` is 2, `Empty` is 3.
    pub open spec fn ordinal(self) -> u8 {
        match self {
            Cell::Head => 0,
            Cell::Tail => 1,
            Cell::Food => 2,
            Cell::Empty => 3,
        }
    }

    /// The content that a number stands for; numbers above 3 stand for none
    /// and are read as `Empty`.
    pub open spec fn of_ordinal(code: u8) -> Cell {
        if code == 0 {
            Cell::Head
        } else if code == 1 {
            Cell::Tail
        } else if code == 2 {
            Cell::Food
        } else {
            Cell::Empty
        }
    }

    /// Whether the cell holds a part of the snake.
    pub open spec fn is_snake(self) -> bool {
        self == Cell::Head || self == Cell::Tail
    }

    /// The number that a renderer receives for this content.
    pub fn code(self) -> (code: u8)
        ensures
            code == self.ordinal(),
    {
        match self {
            Cell::Head => 0,
            Cell::Tail => 1,
            Cell::Food => 2,
            Cell::Empty => 3,
        }
    }
}

/// A content is read back from its own number, and the numbers of two
/// different contents differ.
pub proof fn lemma_ordinal_round_trip(a: Cell, b: Cell)
    ensures
        Cell::of_ordinal(a.ordinal()) == a,
        a.ordinal() <= 3,
        a.ordinal() == b.ordinal() ==> a == b,
{
}

} // verus!
