//! The report of the cells that one step changed.

use vstd::prelude::*;
use crate::cell::Cell;

verus! {

/// One changed cell: where it lies and what it holds now.
pub struct Change {
    pub row: int,
    pub col: int,
    pub cell: Cell,
}

/// What a step changed, as a renderer needs it: the changed cells in the
/// order in which they are reported, and the snake's length after the step.
#[verifier::ext_equal]
pub struct Diff {
    pub changes: Seq<Change>,
    pub score: nat,
}

/// The change that leaves `cell` at coordinate `c`.
pub open spec fn change(c: (int, int), cell: Cell) -> Change {
    Change { row: c.0, col: c.1, cell }
}

/// The cells that a step changed, laid out for a cheap hand-over to a
/// renderer: three parallel sequences of rows, columns and content numbers,
/// their common length, and the score.
pub struct ChangedCells {
    xs: Vec<u32>,
    ys: Vec<u32>,
    cells: Vec<u8>,
    len: u32,
    score: usize,
}

impl View for ChangedCells {
    type V = Diff;

    closed spec fn view(&self) -> Diff {
        Diff {
            changes: Seq::new(
                self.xs@.len(),
                |i: int|
                    Change {
                        row: self.xs@[i] as int,
                        col: self.ys@[i] as int,
                        cell: Cell::of_ordinal(self.cells@[i]),
                    },
            ),
            score: self.score as nat,
        }
    }
}

impl ChangedCells {
    /// The three sequences have the length that `len` gives, and every
    /// content number stands for a content.
    #[verifier::type_invariant]
    spec fn parallel(&self) -> bool {
        &&& self.xs@.len() == self.len
        &&& self.ys@.len() == self.len
        &&& self.cells@.len() == self.len
        &&& forall|i: int| 0 <= i < self.cells@.len() ==> #[trigger] self.cells@[i] <= 3
    }

    /// Reports two changed cells, in this order.
    pub(crate) fn of_two(
        first: (u32, u32),
        first_cell: Cell,
        second: (u32, u32),
        second_cell: Cell,
        score: usize,
    ) -> (report: ChangedCells)
        ensures
            report@ == (Diff {
                changes: seq![
                    change((first.0 as int, first.1 as int), first_cell),
                    change((second.0 as int, second.1 as int), second_cell),
                ],
                score: score as nat,
            }),
    {
        let report = ChangedCells {
            xs: vec![first.0, second.0],
            ys: vec![first.1, second.1],
            cells: vec![first_cell.code(), second_cell.code()],
            len: 2,
            score,
        };
        assert(report@.changes =~= seq![
            change((first.0 as int, first.1 as int), first_cell),
            change((second.0 as int, second.1 as int), second_cell),
        ]);
        report
    }

    /// Reports three changed cells, in this order.
    pub(crate) fn of_three(
        first: (u32, u32),
        first_cell: Cell,
        second: (u32, u32),
        second_cell: Cell,
        third: (u32, u32),
        third_cell: Cell,
        score: usize,
    ) -> (report: ChangedCells)
        ensures
            report@ == (Diff {
                changes: seq![
                    change((first.0 as int, first.1 as int), first_cell),
                    change((second.0 as int, second.1 as int), second_cell),
                    change((third.0 as int, third.1 as int), third_cell),
                ],
                score: score as nat,
            }),
    {
        let report = ChangedCells {
            xs: vec![first.0, second.0, third.0],
            ys: vec![first.1, second.1, third.1],
            cells: vec![first_cell.code(), second_cell.code(), third_cell.code()],
            len: 3,
            score,
        };
        assert(report@.changes =~= seq![
            change((first.0 as int, first.1 as int), first_cell),
            change((second.0 as int, second.1 as int), second_cell),
            change((third.0 as int, third.1 as int), third_cell),
        ]);
        report
    }

    /// The rows of the changed cells, in the order of the report.
    pub fn xs(&self) -> (rows: Vec<u32>)
        ensures
            rows@.len() == self@.changes.len(),
            forall|i: int| 0 <= i < rows@.len() ==> rows@[i] as int == self@.changes[i].row,
    {
        proof {
            use_type_invariant(self);
        }
        self.xs.clone()
    }

    /// The columns of the changed cells, in the order of the report.
    pub fn ys(&self) -> (columns: Vec<u32>)
        ensures
            columns@.len() == self@.changes.len(),
            forall|i: int| 0 <= i < columns@.len() ==> columns@[i] as int == self@.changes[i].col,
    {
        proof {
            use_type_invariant(self);
        }
        self.ys.clone()
    }

    /// The content numbers of the changed cells, in the order of the report.
    pub fn cells(&self) -> (codes: Vec<u8>)
        ensures
            codes@.len() == self@.changes.len(),
            forall|i: int| 0 <= i < codes@.len() ==> codes@[i] == self@.changes[i].cell.ordinal(),
    {
        proof {
            use_type_invariant(self);
        }
        self.cells.clone()
    }

    /// How many cells changed.
    pub fn len(&self) -> (count: u32)
        ensures
            count == self@.changes.len(),
    {
        proof {
            use_type_invariant(self);
        }
        self.len
    }

    /// The snake's length after the step.
    pub fn score(&self) -> (score: usize)
        ensures
            score == self@.score,
    {
        self.score
    }
}

} // verus!
