//! The score sheet in memory: rounds in a vector, and the cursor found and
//! moved by walking it.

use vstd::prelude::*;
use crate::player::{Player, PlayerView};
use crate::round::Round;
use crate::sheet::{
    all_rows_have, is_cursor, is_first_cursor, lemma_first_editing, no_cursor, single_cursor,
    with_cursor, Sheet,
};

verus! {

/// The roster as the contracts see it.
pub open spec fn roster_view(players: Seq<Player>) -> Seq<PlayerView> {
    Seq::new(players.len(), |i: int| players[i]@)
}

/// The score sheet as the contracts see it.
pub open spec fn sheet_view(rounds: Seq<Round>) -> Sheet {
    Seq::new(rounds.len(), |r: int| rounds[r]@)
}

/// A cell position as the contracts see it.
pub open spec fn cell_view(at: Option<(usize, usize)>) -> Option<(int, int)> {
    match at {
        Some((r, p)) => Some((r as int, p as int)),
        None => None,
    }
}

/// Moves the cursor of a score sheet: afterwards the cell at `at`, if the
/// sheet has it, is being edited, and no other cell is. Values stay.
pub fn place_cursor(rounds: &mut Vec<Round>, at: Option<(usize, usize)>)
    ensures
        sheet_view(final(rounds)@) == with_cursor(sheet_view(old(rounds)@), cell_view(at)),
{
    let mut r: usize = 0;
    while r < rounds.len()
        invariant
            r <= rounds.len(),
            rounds@.len() == old(rounds)@.len(),
            forall|i: int|
                0 <= i < r ==> (#[trigger] rounds@[i])@ == with_cursor(
                    sheet_view(old(rounds)@),
                    cell_view(at),
                )[i],
            forall|i: int| r <= i < rounds@.len() ==> rounds@[i] == old(rounds)@[i],
        decreases rounds.len() - r,
    {
        let here = match at {
            Some((tr, tp)) => if tr == r {
                Some(tp)
            } else {
                None
            },
            None => None,
        };
        rounds[r].set_cursor(here);
        r += 1;
    }
}

/// Finds the cell being edited: the first one in reading order, if there
/// are several.
pub fn find_cursor(rounds: &Vec<Round>) -> (at: Option<(usize, usize)>)
    ensures
        match at {
            Some((r, p)) => is_first_cursor(sheet_view(rounds@), r as int, p as int),
            None => no_cursor(sheet_view(rounds@)),
        },
{
    let mut r: usize = 0;
    while r < rounds.len()
        invariant
            r <= rounds.len(),
            forall|i: int, j: int| is_cursor(sheet_view(rounds@), i, j) ==> r <= i,
        decreases rounds.len() - r,
    {
        let p = rounds[r].find_editing(0);
        proof {
            lemma_first_editing(rounds@[r as int]@, 0);
        }
        if p < rounds[r].scores.len() {
            return Some((r, p));
        }
        r += 1;
    }
    None
}

/// Tells whether at most one cell of the sheet is being edited.
pub fn has_single_cursor(rounds: &Vec<Round>) -> (single: bool)
    ensures
        single == single_cursor(sheet_view(rounds@)),
{
    match find_cursor(rounds) {
        None => true,
        Some((r, p)) => {
            assert(r < rounds.len() && p < rounds[r as int].scores.len());
            let q = rounds[r].find_editing(p + 1);
            proof {
                lemma_first_editing(rounds@[r as int]@, p + 1);
            }
            if q < rounds[r].scores.len() {
                assert(is_cursor(sheet_view(rounds@), r as int, q as int));
                return false;
            }
            let mut i: usize = r + 1;
            while i < rounds.len()
                invariant
                    r < i <= rounds.len(),
                    is_cursor(sheet_view(rounds@), r as int, p as int),
                    forall|k: int, j: int|
                        is_cursor(sheet_view(rounds@), k, j) && k < i ==> k == r && j == p,
                decreases rounds.len() - i,
            {
                let q = rounds[i].find_editing(0);
                proof {
                    lemma_first_editing(rounds@[i as int]@, 0);
                }
                if q < rounds[i].scores.len() {
                    assert(is_cursor(sheet_view(rounds@), i as int, q as int));
                    return false;
                }
                i += 1;
            }
            true
        },
    }
}

/// Tells whether every round has `width` cells.
pub fn rows_have(rounds: &Vec<Round>, width: usize) -> (all: bool)
    ensures
        all == all_rows_have(sheet_view(rounds@), width as nat),
{
    let mut r: usize = 0;
    while r < rounds.len()
        invariant
            r <= rounds.len(),
            forall|i: int| 0 <= i < r ==> (#[trigger] sheet_view(rounds@)[i]).len() == width,
        decreases rounds.len() - r,
    {
        if rounds[r].scores.len() != width {
            assert(sheet_view(rounds@)[r as int].len() != width);
            return false;
        }
        r += 1;
    }
    true
}

} // verus!
