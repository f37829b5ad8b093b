//! The mathematical model of a game state, and the rules of the game stated
//! over it.

use vstd::prelude::*;
use crate::cell::Cell;
use crate::changed::{change, Diff};
use crate::direction::Direction;
use crate::grid::{flat, in_grid, neighbour, unflat};

verus! {

/// Where a game stands between two steps.
#[derive(Clone, Copy, Debug, PartialEq, Eq, Structural)]
pub enum Phase {
    /// The snake moves with every step.
    Running,
    /// The snake has eaten and the grid has no food yet. Steps do nothing
    /// until a cell has been taken for the new food.
    AwaitingFood,
    /// The snake ran off the grid or into itself. The game is over and
    /// nothing changes any more.
    Halted,
}

/// A game state.
///
/// `grid` stores the cells row by row. `body` lists the coordinates of the
/// snake from its head to its tail end.
#[verifier::ext_equal]
pub struct Board {
    pub width: int,
    pub height: int,
    pub grid: Seq<Cell>,
    pub body: Seq<(int, int)>,
    pub heading: Direction,
    pub phase: Phase,
}

impl Board {
    /// The coordinate of the snake's head.
    pub open spec fn head(self) -> (int, int) {
        self.body[0]
    }

    /// The coordinate of the snake's last segment.
    pub open spec fn tail_end(self) -> (int, int) {
        self.body[self.body.len() - 1]
    }

    /// What the cell at coordinate `c` holds.
    pub open spec fn cell(self, c: (int, int)) -> Cell {
        self.grid[flat(c, self.width)]
    }

    /// The grid has an extent, its storage has one cell for each coordinate,
    /// and the snake has at least one segment, each of them on the grid.
    pub open spec fn well_shaped(self) -> bool {
        &&& 0 < self.width
        &&& 0 < self.height
        &&& self.grid.len() == self.width * self.height
        &&& self.body.len() >= 1
        &&& forall|i: int|
            0 <= i < self.body.len() ==> in_grid(#[trigger] self.body[i], self.width, self.height)
    }

    /// The head lies on a `Head` cell and every segment on a `Head` or `Tail`
    /// cell.
    pub open spec fn body_on_snake_cells(self) -> bool {
        &&& self.cell(self.head()) == Cell::Head
        &&& forall|i: int|
            0 <= i < self.body.len() ==> self.grid[flat(#[trigger] self.body[i], self.width)].is_snake()
    }

    /// No two segments lie on the same cell.
    pub open spec fn segments_apart(self) -> bool {
        forall|i: int, j: int|
            0 <= i < j < self.body.len() ==> flat(#[trigger] self.body[i], self.width) != flat(
                #[trigger] self.body[j],
                self.width,
            )
    }

    /// Every `Head` or `Tail` cell holds a segment.
    pub open spec fn snake_cells_in_body(self) -> bool {
        forall|k: int|
            0 <= k < self.grid.len() && (#[trigger] self.grid[k]).is_snake() ==> exists|i: int|
                0 <= i < self.body.len() && flat(#[trigger] self.body[i], self.width) == k
    }

    /// No two cells hold food.
    pub open spec fn at_most_one_food(self) -> bool {
        forall|k1: int, k2: int|
            0 <= k1 < self.grid.len() && 0 <= k2 < self.grid.len() && (#[trigger] self.grid[k1])
                == Cell::Food && (#[trigger] self.grid[k2]) == Cell::Food ==> k1 == k2
    }

    /// Some cell holds food.
    pub open spec fn has_food(self) -> bool {
        exists|k: int| 0 <= k < self.grid.len() && (#[trigger] self.grid[k]) == Cell::Food
    }

    /// Whether a step in direction `d` would take the head off the grid or
    /// onto the snake.
    pub open spec fn blocked(self, d: Direction) -> bool {
        !self.can_advance(d) || self.cell(self.ahead(d)).is_snake()
    }

    /// The phase fits the grid. Food is missing exactly while the snake waits
    /// for it, and the snake waits only after it has grown: its second segment
    /// then lies on a `Tail` cell. A halted snake faces what halted it.
    pub open spec fn phase_fits(self) -> bool {
        &&& self.phase == Phase::AwaitingFood <==> !self.has_food()
        &&& self.phase == Phase::AwaitingFood ==> self.body.len() >= 2 && self.cell(self.body[1])
            == Cell::Tail
        &&& self.phase == Phase::Halted ==> self.blocked(self.heading)
    }

    /// What holds of every state that the game reaches.
    pub open spec fn inv(self) -> bool {
        &&& self.well_shaped()
        &&& self.body_on_snake_cells()
        &&& self.segments_apart()
        &&& self.snake_cells_in_body()
        &&& self.at_most_one_food()
        &&& self.phase_fits()
    }

    /// The head's cell is the only `Head` cell.
    pub open spec fn single_head(self) -> bool {
        forall|k: int|
            0 <= k < self.grid.len() && (#[trigger] self.grid[k]) == Cell::Head ==> k == flat(
                self.head(),
                self.width,
            )
    }

    /// The state in which every game starts: a grid of 64 by 64 cells, the
    /// snake's single segment at row 5, column 20, heading right, and food in
    /// the cell to its right.
    pub open spec fn initial() -> Board {
        Board {
            width: 64,
            height: 64,
            grid: Seq::new(4096, |k: int| Cell::Empty).update(flat((5, 20), 64), Cell::Head).update(
                flat((5, 21), 64),
                Cell::Food,
            ),
            body: seq![(5int, 20int)],
            heading: Direction::Right,
            phase: Phase::Running,
        }
    }

    /// The heading for the next step, given the player's input.
    ///
    /// An input that decodes to a direction is taken, unless the snake has
    /// more than one segment and the direction is the reverse of the current
    /// heading. Without such an input the heading stays.
    pub open spec fn resolve(self, key_input: Option<u8>) -> Direction {
        match key_input {
            Some(code) => match Direction::of_code(code) {
                Some(d) => if self.body.len() > 1 && d == self.heading.opposite() {
                    self.heading
                } else {
                    d
                },
                None => self.heading,
            },
            None => self.heading,
        }
    }

    /// The coordinate that the head reaches by one step in direction `d`.
    pub open spec fn ahead(self, d: Direction) -> (int, int) {
        neighbour(self.head(), d)
    }

    /// Whether a step in direction `d` keeps the head on the grid.
    pub open spec fn can_advance(self, d: Direction) -> bool {
        in_grid(self.ahead(d), self.width, self.height)
    }

    /// Whether a step with this input ends the game: the snake is running
    /// and the step would take its head off the grid or onto the snake.
    pub open spec fn halts(self, key_input: Option<u8>) -> bool {
        self.phase == Phase::Running && self.blocked(self.resolve(key_input))
    }

    /// Whether a step with this input moves the head onto food.
    pub open spec fn eats(self, key_input: Option<u8>) -> bool {
        let d = self.resolve(key_input);
        self.phase == Phase::Running && self.can_advance(d) && self.cell(self.ahead(d))
            == Cell::Food
    }

    /// Whether a step with this input moves the head onto an empty cell.
    pub open spec fn slides(self, key_input: Option<u8>) -> bool {
        let d = self.resolve(key_input);
        self.phase == Phase::Running && self.can_advance(d) && self.cell(self.ahead(d))
            == Cell::Empty
    }

    /// The state after the snake has grown by one step in direction `d`: the
    /// head's old cell is marked `Tail`, the cell ahead `Head` and becomes the
    /// first segment, and the snake waits for new food.
    pub open spec fn grown(self, d: Direction) -> Board {
        Board {
            grid: self.grid.update(flat(self.head(), self.width), Cell::Tail).update(
                flat(self.ahead(d), self.width),
                Cell::Head,
            ),
            body: seq![self.ahead(d)] + self.body,
            heading: d,
            phase: Phase::AwaitingFood,
            ..self
        }
    }

    /// The state after the snake has moved by one step in direction `d`
    /// without growing: the cell of the last segment is emptied and the
    /// segment dropped, the cell ahead is marked `Head` and becomes the first
    /// segment. No other cell changes.
    pub open spec fn slid(self, d: Direction) -> Board {
        Board {
            grid: self.grid.update(flat(self.tail_end(), self.width), Cell::Empty).update(
                flat(self.ahead(d), self.width),
                Cell::Head,
            ),
            body: seq![self.ahead(d)] + self.body.drop_last(),
            heading: d,
            ..self
        }
    }

    /// The state after a step that ends the game: the resolved heading is
    /// kept, the grid and the body stay as they are.
    pub open spec fn halted(self, d: Direction) -> Board {
        Board { heading: d, phase: Phase::Halted, ..self }
    }

    /// The state after one step with the given input.
    ///
    /// Once the game is over, and while the snake waits for food, nothing
    /// changes. A running snake takes the resolved heading, and grows, moves
    /// or halts.
    pub open spec fn tick(self, key_input: Option<u8>) -> Board {
        let d = self.resolve(key_input);
        if self.phase != Phase::Running {
            self
        } else if self.eats(key_input) {
            self.grown(d)
        } else if self.slides(key_input) {
            self.slid(d)
        } else {
            self.halted(d)
        }
    }

    /// What a step that moves the head onto an empty cell reports: the cell
    /// ahead, now `Head`, then the cell that the last segment left, now
    /// `Empty`, and the unchanged length.
    pub open spec fn slide_diff(self, key_input: Option<u8>) -> Diff {
        Diff {
            changes: seq![
                change(self.ahead(self.resolve(key_input)), Cell::Head),
                change(self.tail_end(), Cell::Empty),
            ],
            score: self.body.len(),
        }
    }

    /// Whether the cell at position `k` of the storage is taken for the new
    /// food: the snake waits for food and the cell is empty.
    pub open spec fn accepts_food(self, k: int) -> bool {
        self.phase == Phase::AwaitingFood && 0 <= k < self.grid.len() && self.grid[k]
            == Cell::Empty
    }

    /// The state after position `k` has been offered for the new food.
    pub open spec fn place_food(self, k: int) -> Board {
        if self.accepts_food(k) {
            Board { grid: self.grid.update(k, Cell::Food), phase: Phase::Running, ..self }
        } else {
            self
        }
    }

    /// What is reported once the new food lies at position `k`: the head's
    /// cell, the cell of the second segment, where the head was before it ate,
    /// now `Tail`, then the cell of the new food, and the snake's length.
    pub open spec fn growth_diff(self, k: int) -> Diff {
        Diff {
            changes: seq![
                change(self.body[0], Cell::Head),
                change(self.body[1], Cell::Tail),
                change(unflat(k, self.width), Cell::Food),
            ],
            score: self.body.len(),
        }
    }
}

} // verus!
