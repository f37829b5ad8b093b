//! The invariant of the game is kept by every step.

use vstd::prelude::*;
use crate::board::{Board, Phase};
use crate::cell::Cell;
use crate::direction::Direction;
use crate::grid::{flat, lemma_flat_in_range};

verus! {

/// Every segment of a well-shaped board is stored inside the grid's storage.
pub proof fn lemma_segments_in_storage(b: Board)
    requires
        b.well_shaped(),
    ensures
        forall|i: int|
            0 <= i < b.body.len() ==> 0 <= flat(#[trigger] b.body[i], b.width) < b.grid.len(),
{
    assert forall|i: int| 0 <= i < b.body.len() implies 0 <= flat(#[trigger] b.body[i], b.width)
        < b.grid.len() by {
        lemma_flat_in_range(b.body[i], b.width, b.height);
    }
}

/// The starting state satisfies the invariant, and its head's cell is the
/// only `Head` cell.
pub proof fn lemma_initial_inv()
    ensures
        Board::initial().inv(),
        Board::initial().single_head(),
{
    let b = Board::initial();
    assert(b.body[0] == (5int, 20int));
    assert(flat((5, 20), 64) == 340);
    assert(flat((5, 21), 64) == 341);
    assert(b.grid[341] == Cell::Food);
    assert(b.grid[340] == Cell::Head);
    assert(b.has_food());
}

/// Growing keeps the invariant.
pub proof fn lemma_grown_inv(b: Board, d: Direction)
    requires
        b.inv(),
        b.phase == Phase::Running,
        b.can_advance(d),
        b.cell(b.ahead(d)) == Cell::Food,
    ensures
        b.grown(d).inv(),
{
    let g = b.grown(d);
    let next = b.ahead(d);
    let at_head = flat(b.head(), b.width);
    let at_next = flat(next, b.width);
    lemma_segments_in_storage(b);
    lemma_flat_in_range(next, b.width, b.height);
    assert(g.body[0] == next);
    assert forall|i: int| 1 <= i < g.body.len() implies #[trigger] g.body[i] == b.body[i - 1] by {}
    assert(g.well_shaped());
    assert(g.body_on_snake_cells()) by {
        assert forall|i: int| 0 <= i < g.body.len() implies g.grid[flat(
            #[trigger] g.body[i],
            g.width,
        )].is_snake() by {
            if i >= 1 {
                assert(g.body[i] == b.body[i - 1]);
            }
        }
    }
    assert(g.segments_apart()) by {
        assert forall|i: int, j: int| 0 <= i < j < g.body.len() implies flat(
            #[trigger] g.body[i],
            g.width,
        ) != flat(#[trigger] g.body[j], g.width) by {
            assert(g.body[j] == b.body[j - 1]);
            if i >= 1 {
                assert(g.body[i] == b.body[i - 1]);
            }
        }
    }
    assert(g.snake_cells_in_body()) by {
        assert forall|k: int| 0 <= k < g.grid.len() && (#[trigger] g.grid[k]).is_snake() implies exists|
            i: int,
        |
            0 <= i < g.body.len() && flat(#[trigger] g.body[i], g.width) == k by {
            if k == at_next {
                assert(flat(g.body[0], g.width) == k);
            } else if k == at_head {
                assert(g.body[1] == b.body[0]);
                assert(flat(g.body[1], g.width) == k);
            } else {
                assert(b.grid[k].is_snake());
                let i = choose|i: int| 0 <= i < b.body.len() && flat(#[trigger] b.body[i], b.width) == k;
                assert(g.body[i + 1] == b.body[i]);
                assert(flat(g.body[i + 1], g.width) == k);
            }
        }
    }
    assert(!g.has_food()) by {
        assert forall|k: int| 0 <= k < g.grid.len() implies (#[trigger] g.grid[k]) != Cell::Food by {
            if k != at_next && k != at_head {
                assert(g.grid[k] == b.grid[k]);
                assert(b.grid[at_next] == Cell::Food);
            }
        }
    }
    assert(g.body[1] == b.body[0]);
    assert(at_head != at_next);
}

/// Moving onto an empty cell keeps the invariant.
pub proof fn lemma_slid_inv(b: Board, d: Direction)
    requires
        b.inv(),
        b.phase == Phase::Running,
        b.can_advance(d),
        b.cell(b.ahead(d)) == Cell::Empty,
    ensures
        b.slid(d).inv(),
{
    let s = b.slid(d);
    let next = b.ahead(d);
    let last = b.body.len() - 1;
    let at_last = flat(b.tail_end(), b.width);
    let at_next = flat(next, b.width);
    lemma_segments_in_storage(b);
    lemma_flat_in_range(next, b.width, b.height);
    assert(b.body[last] == b.tail_end());
    assert(at_last != at_next);
    assert(s.body[0] == next);
    assert(s.body.len() == b.body.len());
    assert forall|i: int| 1 <= i < s.body.len() implies #[trigger] s.body[i] == b.body[i - 1] by {}
    assert(s.well_shaped());
    assert(s.body_on_snake_cells()) by {
        assert forall|i: int| 0 <= i < s.body.len() implies s.grid[flat(
            #[trigger] s.body[i],
            s.width,
        )].is_snake() by {
            if i >= 1 {
                assert(s.body[i] == b.body[i - 1]);
            }
        }
    }
    assert(s.segments_apart()) by {
        assert forall|i: int, j: int| 0 <= i < j < s.body.len() implies flat(
            #[trigger] s.body[i],
            s.width,
        ) != flat(#[trigger] s.body[j], s.width) by {
            assert(s.body[j] == b.body[j - 1]);
            if i >= 1 {
                assert(s.body[i] == b.body[i - 1]);
            }
        }
    }
    assert(s.snake_cells_in_body()) by {
        assert forall|k: int| 0 <= k < s.grid.len() && (#[trigger] s.grid[k]).is_snake() implies exists|
            i: int,
        |
            0 <= i < s.body.len() && flat(#[trigger] s.body[i], s.width) == k by {
            if k == at_next {
                assert(flat(s.body[0], s.width) == k);
            } else {
                assert(k != at_last);
                assert(b.grid[k].is_snake());
                let i = choose|i: int| 0 <= i < b.body.len() && flat(#[trigger] b.body[i], b.width) == k;
                assert(i != last);
                assert(s.body[i + 1] == b.body[i]);
                assert(flat(s.body[i + 1], s.width) == k);
            }
        }
    }
    assert(s.has_food()) by {
        let k = choose|k: int| 0 <= k < b.grid.len() && (#[trigger] b.grid[k]) == Cell::Food;
        assert(k != at_next && k != at_last);
        assert(s.grid[k] == Cell::Food);
    }
    assert(s.at_most_one_food()) by {
        assert forall|k1: int, k2: int|
            0 <= k1 < s.grid.len() && 0 <= k2 < s.grid.len() && (#[trigger] s.grid[k1])
                == Cell::Food && (#[trigger] s.grid[k2]) == Cell::Food implies k1 == k2 by {
            assert(b.grid[k1] == Cell::Food);
            assert(b.grid[k2] == Cell::Food);
        }
    }
}

/// A step keeps the invariant, whatever the input.
pub proof fn lemma_tick_inv(b: Board, key_input: Option<u8>)
    requires
        b.inv(),
    ensures
        b.tick(key_input).inv(),
{
    let d = b.resolve(key_input);
    if b.phase != Phase::Running {
    } else if b.eats(key_input) {
        lemma_grown_inv(b, d);
    } else if b.slides(key_input) {
        lemma_slid_inv(b, d);
    } else {
        let t = b.tick(key_input);
        assert(t.grid == b.grid && t.body == b.body);
        assert(b.has_food() ==> t.has_food());
        assert(b.cell(b.ahead(d)) != Cell::Food && b.cell(b.ahead(d)) != Cell::Empty ==> b.cell(
            b.ahead(d),
        ).is_snake());
    }
}

/// Offering a cell for the new food keeps the invariant, whether the cell is
/// taken or not.
pub proof fn lemma_place_food_inv(b: Board, k: int)
    requires
        b.inv(),
    ensures
        b.place_food(k).inv(),
{
    if b.accepts_food(k) {
        let f = b.place_food(k);
        lemma_segments_in_storage(b);
        assert(f.grid[k] == Cell::Food);
        assert(f.has_food());
        assert(f.body_on_snake_cells()) by {
            assert forall|i: int| 0 <= i < f.body.len() implies f.grid[flat(
                #[trigger] f.body[i],
                f.width,
            )].is_snake() by {
                assert(b.grid[flat(b.body[i], b.width)].is_snake());
            }
        }
        assert(f.snake_cells_in_body()) by {
            assert forall|j: int| 0 <= j < f.grid.len() && (#[trigger] f.grid[j]).is_snake() implies exists|
                i: int,
            |
                0 <= i < f.body.len() && flat(#[trigger] f.body[i], f.width) == j by {
                assert(b.grid[j].is_snake());
            }
        }
        assert(f.at_most_one_food()) by {
            assert forall|k1: int, k2: int|
                0 <= k1 < f.grid.len() && 0 <= k2 < f.grid.len() && (#[trigger] f.grid[k1])
                    == Cell::Food && (#[trigger] f.grid[k2]) == Cell::Food implies k1 == k2 by {
                if k1 != k {
                    assert(b.grid[k1] == Cell::Food);
                }
                if k2 != k {
                    assert(b.grid[k2] == Cell::Food);
                }
            }
        }
    }
}

} // verus!
