//! The game itself: the grid, the snake and the step function.

use std::collections::VecDeque;
use vstd::prelude::*;
use crate::board::{Board, Phase};
use crate::cell::Cell;
use crate::changed::ChangedCells;
use crate::direction::Direction;
use crate::grid::{
    at_edge, coord, flat, in_grid, lemma_edge_blocks, lemma_flat_in_range, neighbour, unflat,
};
use crate::preserved::{
    lemma_grown_inv, lemma_initial_inv, lemma_place_food_inv, lemma_slid_inv, lemma_tick_inv,
};

verus! {

/// A game in progress.
pub struct Universe {
    width: u32,
    height: u32,
    cells: Vec<Cell>,
    direction: Direction,
    snake: VecDeque<(u32, u32)>,
    phase: Phase,
}

/// What a step did.
pub enum Step {
    /// The head could not advance. Nothing on the grid changed.
    Halted,
    /// The snake moved onto an empty cell.
    Moved(ChangedCells),
    /// The snake has eaten and the grid has no food. Nothing more happens
    /// until `place_food` has taken a cell.
    NeedsFood,
}

impl View for Universe {
    type V = Board;

    closed spec fn view(&self) -> Board {
        Board {
            width: self.width as int,
            height: self.height as int,
            grid: self.cells@,
            body: self.snake@.map_values(|c: (u32, u32)| coord(c)),
            heading: self.direction,
            phase: self.phase,
        }
    }
}

impl Universe {
    /// The state satisfies the invariant of the game, and every position of
    /// the grid's storage fits a `u32`.
    pub open spec fn wf(&self) -> bool {
        self@.inv() && self@.width * self@.height <= u32::MAX
    }

    /// The position of a coordinate in the grid's storage.
    pub fn get_index(&self, coordinates: (u32, u32)) -> (index: usize)
        requires
            in_grid(coord(coordinates), self@.width, self@.height),
            self@.width * self@.height <= u32::MAX,
        ensures
            index == flat(coord(coordinates), self@.width),
            index < self@.width * self@.height,
    {
        let (row, column) = coordinates;
        proof {
            lemma_flat_in_range(coord(coordinates), self@.width, self@.height);
        }
        (row * self.width + column) as usize
    }

    /// The coordinate of the snake's head.
    pub fn get_head_coordinates(&self) -> (head: (u32, u32))
        requires
            self.wf(),
        ensures
            coord(head) == self@.head(),
    {
        self.snake[0]
    }

    /// Whether one step from `coordinates` in `direction` stays on the grid:
    /// true unless the coordinate lies on the edge that the step would cross.
    /// The answer is found without computing the coordinate that the step
    /// leads to, which at the top and left edges would be negative.
    pub fn next_move_inbounds(&self, coordinates: (u32, u32), direction: Direction) -> (stays: bool)
        requires
            self.wf(),
        ensures
            stays == !at_edge(coord(coordinates), direction, self@.width, self@.height),
            in_grid(coord(coordinates), self@.width, self@.height) ==> stays == in_grid(
                neighbour(coord(coordinates), direction),
                self@.width,
                self@.height,
            ),
    {
        let (row, col) = coordinates;
        match direction {
            Direction::Up => row != 0,
            Direction::Down => row != self.height - 1,
            Direction::Left => col != 0,
            Direction::Right => col != self.width - 1,
        }
    }

    /// The coordinate that the head reaches by one step in `direction`, or
    /// `None` where that step leaves the grid.
    pub fn next_head(&self, direction: Direction) -> (next: Option<(u32, u32)>)
        requires
            self.wf(),
        ensures
            next is Some <==> self@.can_advance(direction),
            next matches Some(c) ==> coord(c) == self@.ahead(direction),
    {
        proof {
            lemma_edge_blocks(self@.head(), direction, self@.width, self@.height);
        }
        if !self.next_move_inbounds(self.get_head_coordinates(), direction) {
            return None;
        }
        let (head_row, head_column) = self.get_head_coordinates();
        match direction {
            Direction::Up => Some((head_row - 1, head_column)),
            Direction::Down => Some((head_row + 1, head_column)),
            Direction::Left => Some((head_row, head_column - 1)),
            Direction::Right => Some((head_row, head_column + 1)),
        }
    }

    /// A new game: a grid of 64 by 64 cells, the snake's single segment at
    /// row 5, column 20, heading right, and food in the cell to its right.
    pub fn new() -> (universe: Universe)
        ensures
            universe.wf(),
            universe@ == Board::initial(),
    {
        let width: u32 = 64;
        let height: u32 = 64;
        let head_coordinates: (u32, u32) = (5, 20);

        let head_index: u32 = head_coordinates.0 * 64 + head_coordinates.1;
        let food_index: u32 = 5 * 64 + 21;
        let mut cells: Vec<Cell> = Vec::new();
        let mut i: u32 = 0;
        while i < width * height
            invariant
                width == 64,
                height == 64,
                head_index == 340,
                food_index == 341,
                i <= width * height,
                cells@.len() == i,
                forall|k: int|
                    0 <= k < i ==> #[trigger] cells@[k] == if k == head_index {
                        Cell::Head
                    } else if k == food_index {
                        Cell::Food
                    } else {
                        Cell::Empty
                    },
            decreases width * height - i,
        {
            if i == head_index {
                cells.push(Cell::Head);
            } else if i == food_index {
                cells.push(Cell::Food);
            } else {
                cells.push(Cell::Empty);
            }
            i = i + 1;
        }

        let mut snake: VecDeque<(u32, u32)> = VecDeque::with_capacity((width * height) as usize);
        snake.push_front(head_coordinates);
        let direction = Direction::Right;

        let universe = Universe {
            width,
            height,
            cells,
            direction,
            snake,
            phase: Phase::Running,
        };
        proof {
            assert(universe@.grid =~= Board::initial().grid);
            assert(universe@.body =~= Board::initial().body);
            assert(universe@ =~= Board::initial());
            lemma_initial_inv();
        }
        universe
    }

    /// The number of columns of the grid.
    pub fn get_width(&self) -> (width: u32)
        ensures
            width == self@.width,
    {
        self.width
    }

    /// The number of rows of the grid.
    pub fn get_height(&self) -> (height: u32)
        ensures
            height == self@.height,
    {
        self.height
    }

    /// Where the game stands: running, waiting for food, or over.
    pub fn get_phase(&self) -> (phase: Phase)
        ensures
            phase == self@.phase,
    {
        self.phase
    }

    /// The heading that the last step resolved.
    pub fn get_direction(&self) -> (heading: Direction)
        ensures
            heading == self@.heading,
    {
        self.direction
    }

    /// The number of segments of the snake, which is the score.
    pub fn get_score(&self) -> (score: usize)
        ensures
            score == self@.body.len(),
    {
        self.snake.len()
    }

    /// The coordinate of the segment at place `i` of the body, counted from
    /// the head, or `None` where the snake has no such segment.
    pub fn get_segment(&self, i: usize) -> (segment: Option<(u32, u32)>)
        ensures
            segment is Some <==> i < self@.body.len(),
            segment matches Some(c) ==> coord(c) == self@.body[i as int],
    {
        if i < self.snake.len() {
            Some(self.snake[i])
        } else {
            None
        }
    }

    /// What the cell at the given row and column holds, or `None` where the
    /// grid has no such cell.
    pub fn get_cell(&self, row: u32, column: u32) -> (cell: Option<Cell>)
        requires
            self.wf(),
        ensures
            cell is Some <==> in_grid(coord((row, column)), self@.width, self@.height),
            cell matches Some(content) ==> content == self@.cell(coord((row, column))),
    {
        if row < self.height && column < self.width {
            let index: usize = self.get_index((row, column));
            Some(self.cells[index])
        } else {
            None
        }
    }

    /// Advances the game by one step.
    ///
    /// `key_input` is the player's input since the last step: 0 for up, 1 for
    /// down, 2 for left, 3 for right; anything else leaves the heading as it
    /// is. A snake of more than one segment does not turn back on itself: the
    /// reverse of its heading is ignored.
    ///
    /// The resolved heading is kept even where the step then halts. The snake
    /// halts, and nothing on the grid changes, where the step leaves the grid
    /// or leads onto the snake's own body. Onto an empty cell the snake moves.
    /// Onto food it grows by one segment; the grid is then without food, and
    /// further steps do nothing, until `place_food` has taken a cell.
    pub fn tick(&mut self, key_input: Option<u8>) -> (step: Step)
        requires
            old(self).wf(),
        ensures
            final(self).wf(),
            final(self)@ == old(self)@.tick(key_input),
            step is Halted <==> old(self)@.phase == Phase::Halted || old(self)@.halts(key_input),
            step is Moved <==> old(self)@.slides(key_input),
            step is NeedsFood <==> old(self)@.phase == Phase::AwaitingFood || old(self)@.eats(
                key_input,
            ),
            step matches Step::Moved(report) ==> report@ == old(self)@.slide_diff(key_input),
    {
        match self.phase {
            Phase::Halted => return Step::Halted,
            Phase::AwaitingFood => return Step::NeedsFood,
            Phase::Running => {},
        }
        let direction = match key_input {
            Some(code) => match Direction::from_u8(code) {
                Some(input_direction) => if self.snake.len() > 1 && input_direction
                    == self.direction.inverse() {
                    self.direction
                } else {
                    input_direction
                },
                None => self.direction,
            },
            None => self.direction,
        };
        assert(direction == self@.resolve(key_input));

        self.direction = direction;
        assert(self@ =~= (Board { heading: direction, ..old(self)@ }));
        let next_head = match self.next_head(self.direction) {
            Some(next) => next,
            None => {
                self.phase = Phase::Halted;
                assert(self@ =~= old(self)@.halted(direction));
                proof {
                    lemma_tick_inv(old(self)@, key_input);
                }
                return Step::Halted;
            },
        };

        let next_head_index: usize = self.get_index(next_head);
        let ghost before = self@;
        match self.cells[next_head_index] {
            Cell::Food => {
                let old_head = self.snake[0];
                self.snake.push_front(next_head);

                let old_head_index: usize = self.get_index(old_head);
                self.cells[old_head_index] = Cell::Tail;
                self.cells[next_head_index] = Cell::Head;
                self.phase = Phase::AwaitingFood;
                proof {
                    assert(self@.body =~= before.grown(direction).body);
                    assert(self@ =~= old(self)@.grown(direction));
                    lemma_grown_inv(old(self)@, direction);
                }
                Step::NeedsFood
            },
            Cell::Empty => {
                let cell_to_empty = self.snake.pop_back().unwrap();
                let cell_to_empty_index: usize = self.get_index(cell_to_empty);
                self.cells[cell_to_empty_index] = Cell::Empty;

                self.snake.push_front(next_head);
                self.cells[next_head_index] = Cell::Head;
                proof {
                    assert(self@.body =~= before.slid(direction).body);
                    assert(self@ =~= old(self)@.slid(direction));
                    lemma_slid_inv(old(self)@, direction);
                }
                Step::Moved(
                    ChangedCells::of_two(
                        next_head,
                        Cell::Head,
                        cell_to_empty,
                        Cell::Empty,
                        self.snake.len(),
                    ),
                )
            },
            _ => {
                self.phase = Phase::Halted;
                proof {
                    assert(self@ =~= old(self)@.halted(direction));
                    lemma_tick_inv(old(self)@, key_input);
                }
                Step::Halted
            },
        }
    }

    /// The coordinate stored at position `index` of the grid, if that cell can
    /// take the new food: `None` where the position lies outside the grid or
    /// the cell is not empty.
    pub fn cell_for_food(&self, index: u32) -> (taken: Option<(u32, u32)>)
        requires
            self.wf(),
        ensures
            taken is Some <==> index < self@.grid.len() && self@.grid[index as int] == Cell::Empty,
            taken matches Some(c) ==> coord(c) == unflat(index as int, self@.width),
    {
        if index >= self.width * self.height {
            return None;
        }
        let coordinates: (u32, u32) = (index / self.width, index % self.width);
        match self.cells[index as usize] {
            Cell::Empty => Some(coordinates),
            _ => None,
        }
    }

    /// Offers the cell at position `index` of the grid for the new food.
    ///
    /// The host draws `index` uniformly from the positions of the grid and
    /// calls this function until it returns a report. The cell is taken where
    /// the snake waits for food and the cell is empty: it then holds the food,
    /// and the report lists the head's cell, the cell behind it and the cell
    /// of the food, with the snake's length. Otherwise nothing changes and
    /// nothing is reported.
    pub fn place_food(&mut self, index: u32) -> (report: Option<ChangedCells>)
        requires
            old(self).wf(),
        ensures
            final(self).wf(),
            final(self)@ == old(self)@.place_food(index as int),
            report is Some <==> old(self)@.accepts_food(index as int),
            report matches Some(r) ==> r@ == old(self)@.growth_diff(index as int),
    {
        match self.phase {
            Phase::AwaitingFood => {},
            _ => return None,
        }
        let new_food_coordinates = match self.cell_for_food(index) {
            Some(coordinates) => coordinates,
            None => return None,
        };
        let new_head = self.snake[0];
        let old_head = self.snake[1];
        self.cells[index as usize] = Cell::Food;
        self.phase = Phase::Running;
        proof {
            assert(self@ =~= old(self)@.place_food(index as int));
            lemma_place_food_inv(old(self)@, index as int);
        }
        Some(
            ChangedCells::of_three(
                new_head,
                Cell::Head,
                old_head,
                Cell::Tail,
                new_food_coordinates,
                Cell::Food,
                self.snake.len(),
            ),
        )
    }
}

} // verus!
