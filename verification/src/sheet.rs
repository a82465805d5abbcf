//! The score sheet as a mathematical object: a sequence of rows, one per
//! round, each a sequence of cells, one per player.
//!
//! Everything here is ghost code. The executable types of the other modules
//! are described in these terms.

use vstd::prelude::*;
use crate::score::Score;

verus! {

/// Rows of cells; row `r`, column `p` is the score of player `p` in round `r`.
pub type Sheet = Seq<Seq<Score>>;

/// A row of `width` unfilled cells, none of them being edited.
pub open spec fn blank_row(width: nat) -> Seq<Score> {
    Seq::new(width, |p: int| Score::blank())
}

/// `(r, p)` names a cell of the sheet.
pub open spec fn in_sheet(sheet: Sheet, r: int, p: int) -> bool {
    0 <= r < sheet.len() && 0 <= p < sheet[r].len()
}

/// `(r, p)` names a cell of the sheet, and that cell is being edited.
pub open spec fn is_cursor(sheet: Sheet, r: int, p: int) -> bool {
    in_sheet(sheet, r, p) && sheet[r][p].is_editing
}

/// `(r, p)` is being edited, and no cell before it in reading order is:
/// no cell of an earlier round, and no cell further left in round `r`.
pub open spec fn is_first_cursor(sheet: Sheet, r: int, p: int) -> bool {
    &&& is_cursor(sheet, r, p)
    &&& forall|i: int, j: int| is_cursor(sheet, i, j) ==> r < i || (r == i && p <= j)
}

/// No cell of the sheet is being edited.
pub open spec fn no_cursor(sheet: Sheet) -> bool {
    forall|r: int, p: int| !is_cursor(sheet, r, p)
}

/// At most one cell of the whole sheet is being edited.
pub open spec fn single_cursor(sheet: Sheet) -> bool {
    forall|r: int, p: int, s: int, q: int|
        is_cursor(sheet, r, p) && is_cursor(sheet, s, q) ==> r == s && p == q
}

/// Where the cursor is: the cell being edited, or `None` if there is none.
/// On a sheet with a single cursor this is the one such cell.
pub open spec fn cursor(sheet: Sheet) -> Option<(int, int)> {
    if exists|r: int, p: int| is_cursor(sheet, r, p) {
        let (r, p) = choose|r: int, p: int| is_cursor(sheet, r, p);
        Some((r, p))
    } else {
        None
    }
}

/// The same sheet with the cursor moved: every cell keeps its value, and a
/// cell is being edited exactly if it is the one named by `at`.
pub open spec fn with_cursor(sheet: Sheet, at: Option<(int, int)>) -> Sheet {
    Seq::new(
        sheet.len(),
        |r: int|
            Seq::new(
                sheet[r].len(),
                |p: int| Score { val: sheet[r][p].val, is_editing: at == Some((r, p)) },
            ),
    )
}

/// The values of a sheet alone, without the editing flags.
pub open spec fn values(sheet: Sheet) -> Seq<Seq<Option<i8>>> {
    Seq::new(sheet.len(), |r: int| Seq::new(sheet[r].len(), |p: int| sheet[r][p].val))
}

/// Every row of the sheet has `width` cells.
pub open spec fn all_rows_have(sheet: Sheet, width: nat) -> bool {
    forall|r: int| 0 <= r < sheet.len() ==> (#[trigger] sheet[r]).len() == width
}

/// Every cell of the row holds a value.
pub open spec fn is_complete(row: Seq<Score>) -> bool {
    forall|p: int| 0 <= p < row.len() ==> (#[trigger] row[p]).val is Some
}

/// The first unfilled cell of `row` at position `from` or later, or the
/// row's length if every cell from there on holds a value.
pub open spec fn next_unfilled(row: Seq<Score>, from: int) -> int
    decreases row.len() - from,
{
    if from < 0 || from >= row.len() {
        row.len() as int
    } else if row[from].val is None {
        from
    } else {
        next_unfilled(row, from + 1)
    }
}

/// What `next_unfilled` finds: nothing between `from` and the result is
/// unfilled, and the result, if it is a cell, is.
pub proof fn lemma_next_unfilled(row: Seq<Score>, from: int)
    requires
        0 <= from <= row.len(),
    ensures
        from <= next_unfilled(row, from) <= row.len(),
        forall|p: int| from <= p < next_unfilled(row, from) ==> (#[trigger] row[p]).val is Some,
        next_unfilled(row, from) < row.len() ==> row[next_unfilled(row, from)].val is None,
    decreases row.len() - from,
{
    if from < row.len() && row[from].val is Some {
        lemma_next_unfilled(row, from + 1);
    }
}

/// The first cell of `row` at position `from` or later that is being edited,
/// or the row's length if no cell from there on is.
pub open spec fn first_editing(row: Seq<Score>, from: int) -> int
    decreases row.len() - from,
{
    if from < 0 || from >= row.len() {
        row.len() as int
    } else if row[from].is_editing {
        from
    } else {
        first_editing(row, from + 1)
    }
}

/// What `first_editing` finds: no cell between `from` and the result is
/// being edited, and the result, if it is a cell, is.
pub proof fn lemma_first_editing(row: Seq<Score>, from: int)
    requires
        0 <= from <= row.len(),
    ensures
        from <= first_editing(row, from) <= row.len(),
        forall|p: int| from <= p < first_editing(row, from) ==> !(#[trigger] row[p]).is_editing,
        first_editing(row, from) < row.len() ==> row[first_editing(row, from)].is_editing,
    decreases row.len() - from,
{
    if from < row.len() && !row[from].is_editing {
        lemma_first_editing(row, from + 1);
    }
}

/// Moving the cursor leaves a single cursor, at the place asked for.
pub proof fn lemma_with_cursor(sheet: Sheet, at: Option<(int, int)>)
    ensures
        single_cursor(with_cursor(sheet, at)),
        values(with_cursor(sheet, at)) == values(sheet),
        with_cursor(sheet, at).len() == sheet.len(),
        forall|r: int|
            0 <= r < sheet.len() ==> (#[trigger] with_cursor(sheet, at)[r]).len() == sheet[r].len(),
        forall|r: int, p: int|
            is_cursor(with_cursor(sheet, at), r, p) <==> in_sheet(sheet, r, p) && at == Some(
                (r, p),
            ),
        at is None ==> cursor(with_cursor(sheet, at)) is None,
        at matches Some((r, p)) && in_sheet(sheet, r, p) ==> cursor(with_cursor(sheet, at)) == at,
{
    let moved = with_cursor(sheet, at);
    assert(values(moved) =~~= values(sheet));
    if let Some((r, p)) = at {
        if in_sheet(sheet, r, p) {
            assert(is_cursor(moved, r, p));
        }
    }
}

} // verus!
