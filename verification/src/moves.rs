//! What the rules of the game imply: where the segments lie, how the snake
//! halts, grows, moves and turns.

use vstd::prelude::*;
use vstd::set_lib::{lemma_int_range, lemma_len_subset, lemma_subset_equality, set_int_range};
use crate::board::{Board, Phase};
use crate::cell::Cell;
use crate::changed::change;
use crate::direction::Direction;
use crate::grid::{
    at_edge, flat, in_grid, lemma_edge_blocks, lemma_flat_in_range, lemma_flat_injective,
    lemma_unflat_in_grid, neighbour, unflat,
};
use crate::preserved::{lemma_segments_in_storage, lemma_tick_inv};

verus! {

/// In every state that the game reaches, the head lies on a `Head` cell, each
/// segment lies on a `Head` or `Tail` cell, no two segments have the same
/// coordinate, and each `Head` or `Tail` cell of the grid holds a segment.
pub proof fn lemma_snake_on_grid(b: Board)
    requires
        b.inv(),
    ensures
        b.cell(b.head()) == Cell::Head,
        forall|i: int| 0 <= i < b.body.len() ==> b.cell(#[trigger] b.body[i]).is_snake(),
        forall|i: int, j: int|
            0 <= i < j < b.body.len() ==> #[trigger] b.body[i] != #[trigger] b.body[j],
        forall|c: (int, int)|
            in_grid(c, b.width, b.height) && (#[trigger] b.cell(c)).is_snake() ==> b.body.contains(c),
{
    assert forall|c: (int, int)|
        in_grid(c, b.width, b.height) && (#[trigger] b.cell(c)).is_snake() implies b.body.contains(
        c,
    ) by {
        lemma_flat_in_range(c, b.width, b.height);
        let k = flat(c, b.width);
        assert(b.grid[k].is_snake());
        let i = choose|i: int| 0 <= i < b.body.len() && flat(#[trigger] b.body[i], b.width) == k;
        lemma_flat_injective(b.body[i], c, b.width, b.height);
    }
}

/// In every state that the game reaches, at most one cell holds food.
pub proof fn lemma_at_most_one_food(b: Board, c1: (int, int), c2: (int, int))
    requires
        b.inv(),
        in_grid(c1, b.width, b.height),
        in_grid(c2, b.width, b.height),
        b.cell(c1) == Cell::Food,
        b.cell(c2) == Cell::Food,
    ensures
        c1 == c2,
{
    lemma_flat_in_range(c1, b.width, b.height);
    lemma_flat_in_range(c2, b.width, b.height);
    assert(b.grid[flat(c1, b.width)] == Cell::Food);
    assert(b.grid[flat(c2, b.width)] == Cell::Food);
    lemma_flat_injective(c1, c2, b.width, b.height);
}

/// Where the head's cell is the only `Head` cell, exactly one coordinate of
/// the grid holds `Head`, the first of the body, and every other segment lies
/// on a `Tail` cell.
pub proof fn lemma_single_head(b: Board)
    requires
        b.inv(),
        b.single_head(),
    ensures
        forall|c: (int, int)|
            in_grid(c, b.width, b.height) ==> (#[trigger] b.cell(c) == Cell::Head <==> c
                == b.head()),
        forall|i: int| 1 <= i < b.body.len() ==> b.cell(#[trigger] b.body[i]) == Cell::Tail,
{
    lemma_segments_in_storage(b);
    assert forall|c: (int, int)| in_grid(c, b.width, b.height) implies (#[trigger] b.cell(c)
        == Cell::Head <==> c == b.head()) by {
        lemma_flat_in_range(c, b.width, b.height);
        if b.cell(c) == Cell::Head {
            assert(b.grid[flat(c, b.width)] == Cell::Head);
            lemma_flat_injective(c, b.head(), b.width, b.height);
        }
    }
    assert forall|i: int| 1 <= i < b.body.len() implies b.cell(#[trigger] b.body[i])
        == Cell::Tail by {
        let k = flat(b.body[i], b.width);
        assert(b.grid[k].is_snake());
        assert(k != flat(b.body[0], b.width));
    }
}

/// The head's cell stays the only `Head` cell through every step but one: a
/// move onto an empty cell by a snake of more than one segment.
pub proof fn lemma_tick_single_head(b: Board, key_input: Option<u8>)
    requires
        b.inv(),
        b.single_head(),
        b.slides(key_input) ==> b.body.len() == 1,
    ensures
        b.tick(key_input).single_head(),
{
    let t = b.tick(key_input);
    let d = b.resolve(key_input);
    lemma_segments_in_storage(b);
    if b.phase != Phase::Running {
    } else if b.eats(key_input) {
        lemma_flat_in_range(b.ahead(d), b.width, b.height);
        assert(t.body[0] == b.ahead(d));
    } else if b.slides(key_input) {
        lemma_flat_in_range(b.ahead(d), b.width, b.height);
        assert(t.body[0] == b.ahead(d));
        assert(b.tail_end() == b.head());
    } else {
        assert(t.grid == b.grid && t.body == b.body);
    }
}

/// A move onto an empty cell by a snake of more than one segment leaves the
/// `Head` mark on the cell that the head left: the grid then has a second
/// `Head` cell, until the last segment has passed over it.
pub proof fn lemma_slide_leaves_mark(b: Board, key_input: Option<u8>)
    requires
        b.inv(),
        b.slides(key_input),
        b.body.len() > 1,
    ensures
        b.tick(key_input).cell(b.head()) == Cell::Head,
        b.tick(key_input).head() != b.head(),
        !b.tick(key_input).single_head(),
{
    let t = b.tick(key_input);
    let d = b.resolve(key_input);
    lemma_segments_in_storage(b);
    lemma_flat_in_range(b.ahead(d), b.width, b.height);
    assert(t.body[0] == b.ahead(d));
    let k = flat(b.head(), b.width);
    assert(b.body[b.body.len() - 1] == b.tail_end());
    assert(k != flat(b.tail_end(), b.width));
    assert(k != flat(b.ahead(d), b.width));
    assert(t.grid[k] == Cell::Head);
}

/// Offering a cell for the new food leaves the head's cell the only `Head`
/// cell.
pub proof fn lemma_place_food_single_head(b: Board, k: int)
    requires
        b.inv(),
        b.single_head(),
    ensures
        b.place_food(k).single_head(),
{
    let f = b.place_food(k);
    assert forall|j: int| 0 <= j < f.grid.len() && (#[trigger] f.grid[j]) == Cell::Head implies j
        == flat(f.head(), f.width) by {
        assert(b.grid[j] == Cell::Head);
    }
}

/// The head can advance in a direction unless it lies on the edge of the grid
/// that the direction leads to.
pub proof fn lemma_can_advance(b: Board, d: Direction)
    requires
        b.well_shaped(),
    ensures
        b.can_advance(d) <==> !at_edge(b.head(), d, b.width, b.height),
{
    lemma_edge_blocks(b.body[0], d, b.width, b.height);
}

/// A step towards the edge that the head lies on moves nothing: the grid and
/// the body stay as they are. For a running snake it ends the game, and the
/// resolved heading is kept.
pub proof fn lemma_halts_at_edge(b: Board, key_input: Option<u8>)
    requires
        b.inv(),
        at_edge(b.head(), b.resolve(key_input), b.width, b.height),
    ensures
        !b.slides(key_input),
        !b.eats(key_input),
        b.tick(key_input).grid == b.grid,
        b.tick(key_input).body == b.body,
        b.phase == Phase::Running ==> b.halts(key_input) && b.tick(key_input) == b.halted(
            b.resolve(key_input),
        ),
{
    lemma_can_advance(b, b.resolve(key_input));
}

/// A step onto the snake's own body moves nothing either, and ends the game
/// of a running snake in the same way.
pub proof fn lemma_halts_at_body(b: Board, key_input: Option<u8>)
    requires
        b.inv(),
        b.can_advance(b.resolve(key_input)),
        b.body.contains(b.ahead(b.resolve(key_input))),
    ensures
        !b.slides(key_input),
        !b.eats(key_input),
        b.tick(key_input).grid == b.grid,
        b.tick(key_input).body == b.body,
        b.phase == Phase::Running ==> b.halts(key_input) && b.tick(key_input) == b.halted(
            b.resolve(key_input),
        ),
{
    let next = b.ahead(b.resolve(key_input));
    let i = choose|i: int| 0 <= i < b.body.len() && b.body[i] == next;
    assert(b.grid[flat(b.body[i], b.width)].is_snake());
}

/// A halt is final: once the game is over no step and no offer of food
/// changes anything, whatever the input.
pub proof fn lemma_halt_is_final(b: Board, key_input: Option<u8>, k: int)
    requires
        b.phase == Phase::Halted,
    ensures
        b.tick(key_input) == b,
        b.place_food(k) == b,
        !b.halts(key_input),
        !b.slides(key_input),
        !b.eats(key_input),
        !b.accepts_food(k),
{
}

/// While the snake waits for food no step changes anything.
pub proof fn lemma_waits_for_food(b: Board, key_input: Option<u8>)
    requires
        b.phase == Phase::AwaitingFood,
    ensures
        b.tick(key_input) == b,
{
}

/// A step onto food grows the snake by one segment at its head, marks the
/// cell that the head left `Tail`, and leaves the grid without food. The cell
/// then taken for the new food was empty, is not the cell where the eaten
/// food lay, and is the only cell with food afterwards. The report lists
/// three cells: the new head's, the old head's and the new food's, and the
/// score is the length before the step plus one. No cell but these three has
/// changed.
pub proof fn lemma_growth(b: Board, key_input: Option<u8>, k: int)
    requires
        b.inv(),
        b.eats(key_input),
        b.tick(key_input).accepts_food(k),
    ensures
        ({
            let next = b.ahead(b.resolve(key_input));
            let t = b.tick(key_input);
            let f = t.place_food(k);
            let report = t.growth_diff(k);
            &&& t.body == seq![next] + b.body
            &&& t.body.len() == b.body.len() + 1
            &&& t.cell(next) == Cell::Head
            &&& t.cell(b.head()) == Cell::Tail
            &&& !t.has_food()
            &&& f.body == t.body
            &&& report.changes == seq![
                change(next, Cell::Head),
                change(b.head(), Cell::Tail),
                change(unflat(k, b.width), Cell::Food),
            ]
            &&& report.changes.len() == 3
            &&& report.score == b.body.len() + 1
            &&& b.grid[k] == Cell::Empty
            &&& k != flat(next, b.width)
            &&& in_grid(unflat(k, b.width), b.width, b.height)
            &&& f.cell(unflat(k, b.width)) == Cell::Food
            &&& forall|j: int| 0 <= j < f.grid.len() ==> (#[trigger] f.grid[j] == Cell::Food <==> j == k)
            &&& forall|j: int|
                0 <= j < b.grid.len() && j != flat(next, b.width) && j != flat(b.head(), b.width)
                    && j != k ==> #[trigger] f.grid[j] == b.grid[j]
        }),
{
    let d = b.resolve(key_input);
    let next = b.ahead(d);
    let t = b.tick(key_input);
    let f = t.place_food(k);
    lemma_tick_inv(b, key_input);
    lemma_unflat_in_grid(k, t.width, t.height);
    lemma_segments_in_storage(b);
    lemma_flat_in_range(next, b.width, b.height);
    assert(flat(b.head(), b.width) != flat(next, b.width));
    assert(t.body[0] == next);
    assert(t.body[1] == b.body[0]);
    assert forall|j: int| 0 <= j < f.grid.len() implies (#[trigger] f.grid[j] == Cell::Food <==> j
        == k) by {
        if j != k {
            assert(f.grid[j] == t.grid[j]);
        }
    }
}

/// A step onto an empty cell keeps the snake's length: the cell ahead
/// becomes the head's, the cell of the last segment is emptied, and every
/// other cell stays as it was. The report lists these two cells, the new
/// head's first, with the unchanged length as the score.
pub proof fn lemma_slide(b: Board, key_input: Option<u8>)
    requires
        b.inv(),
        b.slides(key_input),
    ensures
        ({
            let next = b.ahead(b.resolve(key_input));
            let t = b.tick(key_input);
            let report = b.slide_diff(key_input);
            &&& t.body == seq![next] + b.body.drop_last()
            &&& t.body.len() == b.body.len()
            &&& t.head() == next
            &&& t.cell(next) == Cell::Head
            &&& t.cell(b.tail_end()) == Cell::Empty
            &&& forall|j: int|
                0 <= j < b.grid.len() && j != flat(next, b.width) && j != flat(
                    b.tail_end(),
                    b.width,
                ) ==> #[trigger] t.grid[j] == b.grid[j]
            &&& report.changes == seq![change(next, Cell::Head), change(b.tail_end(), Cell::Empty)]
            &&& report.changes.len() == 2
            &&& report.score == b.body.len()
        }),
{
    let d = b.resolve(key_input);
    let next = b.ahead(d);
    let t = b.tick(key_input);
    lemma_segments_in_storage(b);
    lemma_flat_in_range(next, b.width, b.height);
    assert(b.body[b.body.len() - 1] == b.tail_end());
    assert(flat(b.tail_end(), b.width) != flat(next, b.width));
    assert(t.body[0] == next);
}

/// The extent of the grid never changes: no step and no offer of food alters
/// the width, the height or the number of cells.
pub proof fn lemma_extent_is_fixed(b: Board, key_input: Option<u8>, k: int)
    requires
        b.inv(),
    ensures
        b.tick(key_input).width == b.width,
        b.tick(key_input).height == b.height,
        b.tick(key_input).grid.len() == b.grid.len(),
        b.place_food(k).width == b.width,
        b.place_food(k).height == b.height,
        b.place_food(k).grid.len() == b.grid.len(),
{
    lemma_segments_in_storage(b);
    if b.can_advance(b.resolve(key_input)) {
        lemma_flat_in_range(b.ahead(b.resolve(key_input)), b.width, b.height);
    }
}

/// The positions of the segments in the grid's storage, from the head on.
spec fn positions(b: Board) -> Seq<int> {
    Seq::new(b.body.len(), |i: int| flat(b.body[i], b.width))
}

/// The snake has no more segments than the grid has cells. While it has
/// fewer, some cell holds no segment; once it has as many, every cell holds
/// one.
pub proof fn lemma_room_on_grid(b: Board)
    requires
        b.inv(),
    ensures
        b.body.len() <= b.grid.len(),
        b.body.len() < b.grid.len() ==> exists|k: int|
            0 <= k < b.grid.len() && !(#[trigger] b.grid[k]).is_snake(),
        b.body.len() == b.grid.len() ==> forall|k: int|
            0 <= k < b.grid.len() ==> (#[trigger] b.grid[k]).is_snake(),
{
    let n = b.grid.len() as int;
    let taken = positions(b);
    let cells = set_int_range(0, n);
    lemma_segments_in_storage(b);
    lemma_int_range(0, n);
    assert(taken.no_duplicates()) by {
        assert forall|i: int, j: int|
            0 <= i < taken.len() && 0 <= j < taken.len() && i != j implies taken[i] != taken[j] by {
            if i < j {
                assert(flat(b.body[i], b.width) != flat(b.body[j], b.width));
            } else {
                assert(flat(b.body[j], b.width) != flat(b.body[i], b.width));
            }
        }
    }
    taken.unique_seq_to_set();
    assert(taken.to_set().subset_of(cells)) by {
        assert forall|k: int| taken.to_set().contains(k) implies cells.contains(k) by {
            let i = choose|i: int| 0 <= i < taken.len() && taken[i] == k;
            assert(k == flat(b.body[i], b.width));
        }
    }
    lemma_len_subset(taken.to_set(), cells);
    if forall|k: int| 0 <= k < n ==> (#[trigger] b.grid[k]).is_snake() {
        assert(cells.subset_of(taken.to_set())) by {
            assert forall|k: int| cells.contains(k) implies taken.to_set().contains(k) by {
                assert(b.grid[k].is_snake());
                let i = choose|i: int|
                    0 <= i < b.body.len() && flat(#[trigger] b.body[i], b.width) == k;
                assert(taken[i] == k);
            }
        }
        lemma_len_subset(cells, taken.to_set());
    }
    if b.body.len() == n {
        lemma_subset_equality(taken.to_set(), cells);
        assert forall|k: int| 0 <= k < n implies (#[trigger] b.grid[k]).is_snake() by {
            assert(cells.contains(k));
            assert(taken.to_set().contains(k));
            let i = choose|i: int| 0 <= i < taken.len() && taken[i] == k;
            assert(b.grid[flat(b.body[i], b.width)].is_snake());
        }
    }
}

/// A snake that waits for food can be fed unless it fills the grid: some
/// position is accepted exactly if the snake has fewer segments than the grid
/// has cells.
pub proof fn lemma_food_finds_room(b: Board)
    requires
        b.inv(),
        b.phase == Phase::AwaitingFood,
    ensures
        (exists|k: int| b.accepts_food(k)) <==> b.body.len() < b.width * b.height,
{
    lemma_room_on_grid(b);
    if b.body.len() < b.grid.len() {
        let k = choose|k: int| 0 <= k < b.grid.len() && !(#[trigger] b.grid[k]).is_snake();
        assert(b.grid[k] != Cell::Food);
        assert(b.accepts_food(k));
    } else {
        assert forall|k: int| !b.accepts_food(k) by {
            if 0 <= k < b.grid.len() {
                assert(b.grid[k].is_snake());
            }
        }
    }
}

/// A snake of more than one segment does not turn back: an input that asks
/// for the reverse of the heading leaves the heading as it is, and where the
/// step moves the head, it moves it along that heading.
pub proof fn lemma_reverse_ignored(b: Board, code: u8)
    requires
        b.inv(),
        b.body.len() > 1,
        Direction::of_code(code) == Some(b.heading.opposite()),
    ensures
        b.resolve(Some(code)) == b.heading,
        b.tick(Some(code)).heading == b.heading,
        b.tick(Some(code)) == b.tick(None),
        b.slides(Some(code)) || b.eats(Some(code)) ==> b.tick(Some(code)).head() == neighbour(
            b.head(),
            b.heading,
        ),
{
    let t = b.tick(Some(code));
    if b.slides(Some(code)) || b.eats(Some(code)) {
        assert(t.body[0] == b.ahead(b.heading));
    }
}

/// A snake of one segment turns back freely: an input that asks for the
/// reverse of the heading is taken.
pub proof fn lemma_reverse_taken(b: Board, code: u8)
    requires
        b.inv(),
        b.body.len() == 1,
        Direction::of_code(code) == Some(b.heading.opposite()),
    ensures
        b.resolve(Some(code)) == b.heading.opposite(),
        b.phase == Phase::Running ==> b.tick(Some(code)).heading == b.heading.opposite(),
        b.slides(Some(code)) || b.eats(Some(code)) ==> b.tick(Some(code)).head() == neighbour(
            b.head(),
            b.heading.opposite(),
        ),
{
    let t = b.tick(Some(code));
    if b.slides(Some(code)) || b.eats(Some(code)) {
        assert(t.body[0] == b.ahead(b.heading.opposite()));
    }
}

/// Every step of a running snake is of exactly one kind: the snake halts,
/// eats or moves onto an empty cell.
pub proof fn lemma_one_kind_of_step(b: Board, key_input: Option<u8>)
    requires
        b.inv(),
        b.phase == Phase::Running,
    ensures
        b.halts(key_input) || b.eats(key_input) || b.slides(key_input),
        !(b.halts(key_input) && b.eats(key_input)),
        !(b.halts(key_input) && b.slides(key_input)),
        !(b.eats(key_input) && b.slides(key_input)),
{
    let c = b.cell(b.ahead(b.resolve(key_input)));
    assert(c.is_snake() || c == Cell::Food || c == Cell::Empty);
}

} // verus!
