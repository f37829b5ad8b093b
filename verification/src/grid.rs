//! Coordinates on a grid that is stored row by row.
//!
//! A coordinate is a pair `(row, column)`. Row 0 is the top edge and column 0
//! the left edge.

use vstd::prelude::*;
use crate::direction::Direction;

verus! {

/// A coordinate held in machine integers, as a point of the plane.
pub open spec fn coord(c: (u32, u32)) -> (int, int) {
    (c.0 as int, c.1 as int)
}

/// Whether `c` lies on a grid of the given extent.
pub open spec fn in_grid(c: (int, int), width: int, height: int) -> bool {
    0 <= c.0 < height && 0 <= c.1 < width
}

/// The position of `c` in the row-major storage of a grid `width` cells wide.
pub open spec fn flat(c: (int, int), width: int) -> int {
    c.0 * width + c.1
}

/// The coordinate stored at position `k` of a grid `width` cells wide.
pub open spec fn unflat(k: int, width: int) -> (int, int) {
    (k / width, k % width)
}

/// The coordinate one step away from `c` in direction `d`.
pub open spec fn neighbour(c: (int, int), d: Direction) -> (int, int) {
    match d {
        Direction::Up => (c.0 - 1, c.1),
        Direction::Down => (c.0 + 1, c.1),
        Direction::Left => (c.0, c.1 - 1),
        Direction::Right => (c.0, c.1 + 1),
    }
}

/// Whether `c` lies on the edge of the grid that a step in direction `d`
/// would cross: the top row for `Up`, the bottom row for `Down`, the first
/// column for `Left`, the last column for `Right`.
pub open spec fn at_edge(c: (int, int), d: Direction, width: int, height: int) -> bool {
    match d {
        Direction::Up => c.0 == 0,
        Direction::Down => c.0 == height - 1,
        Direction::Left => c.1 == 0,
        Direction::Right => c.1 == width - 1,
    }
}

/// From a coordinate on the grid, a step leaves the grid exactly if the
/// coordinate lies on the edge that the step would cross.
pub proof fn lemma_edge_blocks(c: (int, int), d: Direction, width: int, height: int)
    requires
        in_grid(c, width, height),
    ensures
        at_edge(c, d, width, height) <==> !in_grid(neighbour(c, d), width, height),
{
}

/// A coordinate on the grid is stored inside the grid's storage.
pub proof fn lemma_flat_in_range(c: (int, int), width: int, height: int)
    requires
        in_grid(c, width, height),
    ensures
        0 <= flat(c, width) < width * height,
{
    assert(0 <= c.0 * width && (c.0 + 1) * width <= height * width) by (nonlinear_arith)
        requires
            0 <= c.0 < height,
            0 < width,
    ;
    assert((c.0 + 1) * width == c.0 * width + width) by (nonlinear_arith);
    assert(height * width == width * height) by (nonlinear_arith);
}

/// Two coordinates on the grid that are stored at the same position are the
/// same coordinate.
pub proof fn lemma_flat_injective(a: (int, int), b: (int, int), width: int, height: int)
    requires
        in_grid(a, width, height),
        in_grid(b, width, height),
        flat(a, width) == flat(b, width),
    ensures
        a == b,
{
    if a.0 < b.0 {
        assert((a.0 + 1) * width <= b.0 * width) by (nonlinear_arith)
            requires
                a.0 + 1 <= b.0,
                0 < width,
        ;
        assert((a.0 + 1) * width == a.0 * width + width) by (nonlinear_arith);
    } else if b.0 < a.0 {
        assert((b.0 + 1) * width <= a.0 * width) by (nonlinear_arith)
            requires
                b.0 + 1 <= a.0,
                0 < width,
        ;
        assert((b.0 + 1) * width == b.0 * width + width) by (nonlinear_arith);
    }
}

/// Every position of the storage holds a coordinate on the grid, and that
/// coordinate is stored at this very position.
pub proof fn lemma_unflat_in_grid(k: int, width: int, height: int)
    requires
        0 < width,
        0 <= k < width * height,
    ensures
        in_grid(unflat(k, width), width, height),
        flat(unflat(k, width), width) == k,
{
    vstd::arithmetic::div_mod::lemma_fundamental_div_mod(k, width);
    vstd::arithmetic::div_mod::lemma_mod_bound(k, width);
    let q = k / width;
    assert(width * q == q * width) by (nonlinear_arith);
    assert(0 <= q < height) by (nonlinear_arith)
        requires
            0 < width,
            0 <= k < width * height,
            k == q * width + k % width,
            0 <= k % width < width,
    ;
}

} // verus!
