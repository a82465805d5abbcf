//! A single cell of the score sheet.

use vstd::prelude::*;

verus! {

/// One cell of a round: the score a player made in it, if it was entered
/// yet, and whether the cell is the one currently open for input.
#[derive(Clone, Copy, Debug, PartialEq, Eq, Structural)]
pub struct Score {
    pub val: Option<i8>,
    pub is_editing: bool,
}

impl Score {
    /// A cell nobody has filled and nobody is editing.
    pub open spec fn blank() -> Score {
        Score { val: None, is_editing: false }
    }

    /// Creates an unfilled cell that is not being edited.
    pub fn empty() -> (cell: Score)
        ensures
            cell == Score::blank(),
    {
        Score { val: None, is_editing: false }
    }
}

} // verus!
