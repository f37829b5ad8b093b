//! The four headings of the snake and the input codes that select them.

use vstd::prelude::*;

verus! {

/// A direction of travel. Rows grow downwards: `Up` leads to the row above,
/// which has the smaller row number.
#[derive(Clone, Copy, Debug, PartialEq, Eq, Structural)]
pub enum Direction {
    Up,
    Down,
    Left,
    Right,
}

impl Direction {
    /// The direction that an input code selects: 0 is `Up`, 1 is `Down`,
    /// 2 is `Left`, 3 is `Right`, and every other code selects none.
    pub open spec fn of_code(input: u8) -> Option<Direction> {
        if input == 0 {
            Some(Direction::Up)
        } else if input == 1 {
            Some(Direction::Down)
        } else if input == 2 {
            Some(Direction::Left)
        } else if input == 3 {
            Some(Direction::Right)
        } else {
            None
        }
    }

    /// The code that selects this direction.
    pub open spec fn code(self) -> u8 {
        match self {
            Direction::Up => 0,
            Direction::Down => 1,
            Direction::Left => 2,
            Direction::Right => 3,
        }
    }

    /// The direction that points the opposite way.
    pub open spec fn opposite(self) -> Direction {
        match self {
            Direction::Up => Direction::Down,
            Direction::Down => Direction::Up,
            Direction::Left => Direction::Right,
            Direction::Right => Direction::Left,
        }
    }

    /// Decodes an input code.
    pub fn from_u8(input: u8) -> (decoded: Option<Direction>)
        ensures
            decoded == Direction::of_code(input),
    {
        if input == 0 {
            Some(Direction::Up)
        } else if input == 1 {
            Some(Direction::Down)
        } else if input == 2 {
            Some(Direction::Left)
        } else if input == 3 {
            Some(Direction::Right)
        } else {
            None
        }
    }

    /// The reverse of this direction.
    pub fn inverse(&self) -> (reversed: Direction)
        ensures
            reversed == self.opposite(),
    {
        match self {
            Direction::Up => Direction::Down,
            Direction::Down => Direction::Up,
            Direction::Left => Direction::Right,
            Direction::Right => Direction::Left,
        }
    }
}

/// Reversing twice gives the direction back, and no direction is its own
/// reverse.
pub proof fn lemma_opposite_involution(d: Direction)
    ensures
        d.opposite().opposite() == d,
        d.opposite() != d,
{
}

/// Every direction is selected by its own code, and by no other code.
pub proof fn lemma_code_selects(d: Direction, input: u8)
    ensures
        Direction::of_code(d.code()) == Some(d),
        Direction::of_code(input) == Some(d) ==> input == d.code(),
{
}

} // verus!
