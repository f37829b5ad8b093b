//! The simulation core of a snake game on a fixed grid.
//!
//! A [`Universe`] owns the grid, the snake's body and its heading. Each call of
//! [`Universe::tick`] advances the snake by one cell and reports the cells that
//! changed, so that a renderer can redraw them and nothing else. When the snake
//! eats, the host draws grid indices at random and offers them to
//! [`Universe::place_food`] until one is accepted.
//!
//! Every executable function carries a contract over [`Board`], the
//! mathematical model of a game state, and is proved to meet it. The modules
//! `preserved`, `moves` and `history` prove what the rules of the game imply.

pub mod board;
pub mod cell;
pub mod changed;
pub mod direction;
pub mod grid;
pub mod history;
pub mod moves;
pub mod preserved;
pub mod universe;

pub use board::{Board, Phase};
pub use cell::Cell;
pub use changed::{Change, ChangedCells, Diff};
pub use direction::Direction;
pub use universe::{Step, Universe};
