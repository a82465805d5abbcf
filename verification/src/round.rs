//! One round of the game: a row of the score sheet.

use vstd::prelude::*;
use crate::score::Score;
use crate::sheet::{blank_row, first_editing, is_complete, next_unfilled};

verus! {

/// The cells of one round, one per player, in roster order.
#[derive(Debug, PartialEq, Eq)]
pub struct Round {
    pub scores: Vec<Score>,
}

impl View for Round {
    type V = Seq<Score>;

    open spec fn view(&self) -> Seq<Score> {
        self.scores@
    }
}

impl Clone for Round {
    fn clone(&self) -> (copy: Round)
        ensures
            copy@ == self@,
    {
        Round { scores: self.scores.clone() }
    }
}

/// The row `row` with its editing flags rewritten: each cell keeps its
/// value, and is being edited exactly if `at` names its position.
pub open spec fn row_with_cursor(row: Seq<Score>, at: Option<int>) -> Seq<Score> {
    Seq::new(row.len(), |p: int| Score { val: row[p].val, is_editing: at == Some(p) })
}

impl Round {
    /// Creates a round of `width` unfilled cells, none of them being edited.
    pub fn blank(width: usize) -> (round: Round)
        ensures
            round@ == blank_row(width as nat),
    {
        let mut scores: Vec<Score> = Vec::new();
        let mut p: usize = 0;
        while p < width
            invariant
                p <= width,
                scores@ == blank_row(p as nat),
            decreases width - p,
        {
            scores.push(Score::empty());
            p += 1;
        }
        Round { scores }
    }

    /// Tells whether every cell of the round holds a value.
    pub fn is_complete(&self) -> (complete: bool)
        ensures
            complete == is_complete(self@),
    {
        let mut p: usize = 0;
        while p < self.scores.len()
            invariant
                p <= self.scores.len(),
                forall|j: int| 0 <= j < p ==> (#[trigger] self@[j]).val is Some,
            decreases self.scores.len() - p,
        {
            if self.scores[p].val.is_none() {
                return false;
            }
            p += 1;
        }
        true
    }

    /// Finds the first unfilled cell at position `from` or later. Returns the
    /// number of cells in the round if there is none.
    pub fn next_unfilled(&self, from: usize) -> (found: usize)
        ensures
            found == next_unfilled(self@, from as int),
            found <= self@.len(),
            found < self@.len() ==> from <= found && self@[found as int].val is None,
    {
        let width = self.scores.len();
        if from >= width {
            return width;
        }
        let mut p: usize = from;
        while p < width
            invariant
                from <= p <= width,
                width == self@.len(),
                next_unfilled(self@, from as int) == next_unfilled(self@, p as int),
            decreases width - p,
        {
            if self.scores[p].val.is_none() {
                return p;
            }
            p += 1;
        }
        width
    }

    /// Finds the first cell at position `from` or later that is being
    /// edited. Returns the number of cells in the round if there is none.
    pub fn find_editing(&self, from: usize) -> (found: usize)
        ensures
            found == first_editing(self@, from as int),
    {
        let width = self.scores.len();
        if from >= width {
            return width;
        }
        let mut p: usize = from;
        while p < width
            invariant
                from <= p <= width,
                width == self@.len(),
                first_editing(self@, from as int) == first_editing(self@, p as int),
            decreases width - p,
        {
            if self.scores[p].is_editing {
                return p;
            }
            p += 1;
        }
        width
    }

    /// Rewrites the editing flags of the round: afterwards the cell at `at`,
    /// if there is one, is being edited and no other cell is. Values stay.
    pub fn set_cursor(&mut self, at: Option<usize>)
        ensures
            final(self)@ == row_with_cursor(
                old(self)@,
                match at {
                    Some(p) => Some(p as int),
                    None => None,
                },
            ),
    {
        let ghost target: Option<int> = match at {
            Some(p) => Some(p as int),
            None => None,
        };
        let mut p: usize = 0;
        while p < self.scores.len()
            invariant
                p <= self.scores.len(),
                self@.len() == old(self)@.len(),
                forall|j: int|
                    0 <= j < p ==> self@[j] == row_with_cursor(old(self)@, target)[j],
                forall|j: int| p <= j < self@.len() ==> self@[j] == old(self)@[j],
                target == match at {
                    Some(p) => Some(p as int),
                    None => None,
                },
            decreases self.scores.len() - p,
        {
            let here = match at {
                Some(q) => q == p,
                None => false,
            };
            let val = self.scores[p].val;
            self.scores[p] = Score { val, is_editing: here };
            p += 1;
        }
    }
}

} // verus!
