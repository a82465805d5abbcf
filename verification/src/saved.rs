//! What is kept of a game between sessions.

use vstd::prelude::*;
use crate::game::{all_named, Game, DEFAULT_TARGET, MIN_PLAYERS};
use crate::grid::{has_single_cursor, roster_view, rows_have, sheet_view};
use crate::player::{Player, PlayerView};
use crate::round::Round;
use crate::sheet::Sheet;

verus! {

/// A game as it is written to storage and read back.
///
/// The fields are open: a record comes from outside and may hold anything.
/// Records written before the target score existed carry none.
#[derive(Debug, PartialEq, Eq)]
pub struct SavedGame {
    pub players: Vec<Player>,
    pub rounds: Vec<Round>,
    pub started: bool,
    pub target: Option<u32>,
}

/// A [`SavedGame`] as the contracts see it.
pub struct SavedGameView {
    pub players: Seq<PlayerView>,
    pub rounds: Sheet,
    pub started: bool,
    pub target: Option<u32>,
}

impl View for SavedGame {
    type V = SavedGameView;

    open spec fn view(&self) -> SavedGameView {
        SavedGameView {
            players: roster_view(self.players@),
            rounds: sheet_view(self.rounds@),
            started: self.started,
            target: self.target,
        }
    }
}

impl SavedGameView {
    /// The game the record describes. A record without a target score gets
    /// the default.
    pub open spec fn game(self) -> Game {
        Game {
            players: self.players,
            rounds: self.rounds,
            started: self.started,
            target: match self.target {
                Some(target) => target,
                None => DEFAULT_TARGET,
            },
        }
    }

    /// The record describes a game that the commands could have produced.
    pub open spec fn is_sound(self) -> bool {
        self.game().wf()
    }

    /// The game to go on with after reading the record: the one it
    /// describes if it is sound, and a fresh game if it is not.
    pub open spec fn restored(self) -> Game {
        if self.is_sound() {
            self.game()
        } else {
            Game::fresh()
        }
    }
}

impl Game {
    /// The record written for this game.
    pub open spec fn saved(self) -> SavedGameView {
        SavedGameView {
            players: self.players,
            rounds: self.rounds,
            started: self.started,
            target: Some(self.target),
        }
    }
}

/// Tells whether every player of the roster has a name of at least one
/// character.
pub fn names_given(players: &Vec<Player>) -> (all: bool)
    ensures
        all == all_named(roster_view(players@)),
{
    let mut i: usize = 0;
    while i < players.len()
        invariant
            i <= players.len(),
            forall|k: int| 0 <= k < i ==> (#[trigger] roster_view(players@)[k]).name.len() > 0,
        decreases players.len() - i,
    {
        if players[i].name.as_str().is_empty() {
            assert(roster_view(players@)[i as int].name.len() == 0);
            return false;
        }
        i += 1;
    }
    true
}

impl SavedGame {
    /// Tells whether the record describes a well-formed game: no player
    /// without a name, no round before the start, at least two players and
    /// one round after it, one cell per player in every round, and at most
    /// one cell being edited.
    pub fn is_sound(&self) -> (sound: bool)
        ensures
            sound == self@.is_sound(),
    {
        if !names_given(&self.players) {
            return false;
        }
        if self.started {
            if self.players.len() < MIN_PLAYERS || self.rounds.len() < 1 {
                return false;
            }
        } else if self.rounds.len() != 0 {
            return false;
        }
        rows_have(&self.rounds, self.players.len()) && has_single_cursor(&self.rounds)
    }
}

} // verus!
