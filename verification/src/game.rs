//! The game as a mathematical object, and the commands as functions on it.
//!
//! A [`Game`] is what the executable [`crate::state::State`] stands for. For
//! each command there are two specification functions: one that says why the
//! command is refused on a given game, if it is, and one that gives the game
//! after the command was carried out.

use vstd::prelude::*;
use crate::error::GameError;
use crate::player::PlayerView;
use crate::score::Score;
use crate::sheet::{
    all_rows_have, blank_row, cursor, in_sheet, is_complete, lemma_next_unfilled,
    lemma_with_cursor, next_unfilled, single_cursor, with_cursor, Sheet,
};

verus! {

/// The score at which a game is conventionally over, unless another was
/// stored. It is recorded with the game and never acted upon.
pub const DEFAULT_TARGET: u32 = 100;

/// The least number of players a game can be started with.
pub const MIN_PLAYERS: usize = 2;

/// A game: the roster, the score sheet, whether play has begun, and the
/// target score.
pub struct Game {
    pub players: Seq<PlayerView>,
    pub rounds: Sheet,
    pub started: bool,
    pub target: u32,
}

/// A command, as the contracts see it.
pub enum Command {
    /// Enter a score: round, player, value.
    ScoreEnter(int, int, i8),
    /// Move the cursor: round, player.
    ScoreEdit(int, int),
    /// Call the game off and keep the roster.
    GameNew,
    /// Start the game.
    GameStart,
    /// Add a player of this name.
    PlayerAdd(Seq<char>),
    /// Remove the player at this position of the roster.
    PlayerRemove(int),
}

/// Every player of the roster has a name of at least one character.
pub open spec fn all_named(players: Seq<PlayerView>) -> bool {
    forall|i: int| 0 <= i < players.len() ==> (#[trigger] players[i]).name.len() > 0
}

impl Game {
    /// The game before anything happened: nobody on the roster, no round,
    /// not started, the default target.
    pub open spec fn fresh() -> Game {
        Game { players: Seq::empty(), rounds: Seq::empty(), started: false, target: DEFAULT_TARGET }
    }

    /// What holds of every game that the commands can produce.
    ///
    /// Nobody on the roster has an empty name. Before the start there is no
    /// round. After it there are at least two players and at least one
    /// round. Every round has one cell per player, and at most one cell of
    /// the whole sheet is being edited.
    pub open spec fn wf(self) -> bool {
        &&& all_named(self.players)
        &&& !self.started ==> self.rounds.len() == 0
        &&& self.started ==> self.players.len() >= MIN_PLAYERS && self.rounds.len() >= 1
        &&& all_rows_have(self.rounds, self.players.len())
        &&& single_cursor(self.rounds)
    }

    /// The cell being edited, if there is one.
    pub open spec fn focused(self) -> Option<(int, int)> {
        cursor(self.rounds)
    }

    /// Why `name` cannot join the roster, if it cannot.
    pub open spec fn refuses_player(self, name: Seq<char>) -> Option<GameError> {
        if self.started {
            Some(GameError::AlreadyStarted)
        } else if name.len() == 0 {
            Some(GameError::EmptyName)
        } else {
            None
        }
    }

    /// The game after `name` joined at the end of the roster, stamped with
    /// the number of players that were there before, cut to the 32 bits of
    /// a stamp.
    pub open spec fn with_player(self, name: Seq<char>) -> Game {
        Game {
            players: self.players.push(PlayerView { id: self.players.len() as u32, name }),
            ..self
        }
    }

    /// Why the player at position `idx` cannot leave, if they cannot.
    pub open spec fn refuses_removal(self, idx: int) -> Option<GameError> {
        if self.started {
            Some(GameError::AlreadyStarted)
        } else if !(0 <= idx < self.players.len()) {
            Some(GameError::IndexOutOfRange)
        } else {
            None
        }
    }

    /// The game after the player at position `idx` left. The others keep
    /// their order and their stamps.
    pub open spec fn without_player(self, idx: int) -> Game {
        Game { players: self.players.remove(idx), ..self }
    }

    /// Why play cannot begin, if it cannot.
    pub open spec fn refuses_start(self) -> Option<GameError> {
        if self.started {
            Some(GameError::AlreadyStarted)
        } else if self.players.len() < MIN_PLAYERS {
            Some(GameError::TooFewPlayers)
        } else {
            None
        }
    }

    /// The game after play began: one round of unfilled cells, the first of
    /// them being edited.
    pub open spec fn begun(self) -> Game {
        Game {
            rounds: with_cursor(seq![blank_row(self.players.len())], Some((0, 0))),
            started: true,
            ..self
        }
    }

    /// The game after it was called off: the roster and the target stay, the
    /// score sheet is gone.
    pub open spec fn reset(self) -> Game {
        Game { rounds: Seq::empty(), started: false, ..self }
    }

    /// Why no score can be entered at round `r`, player `p`, if none can.
    pub open spec fn refuses_score(self, r: int, p: int) -> Option<GameError> {
        if !self.started {
            Some(GameError::NotStarted)
        } else if !in_sheet(self.rounds, r, p) {
            Some(GameError::IndexOutOfRange)
        } else {
            None
        }
    }

    /// The score sheet with `v` written at round `r`, player `p`.
    pub open spec fn sheet_with_score(self, r: int, p: int, v: i8) -> Sheet {
        self.rounds.update(r, self.rounds[r].update(p, Score { val: Some(v), is_editing: false }))
    }

    /// The game after `v` was entered at round `r`, player `p`.
    ///
    /// The value is written. Then the cursor goes to the first unfilled cell
    /// of round `r` to the right of `p`. If there is none and the round is
    /// complete, a new round of unfilled cells is appended and the cursor
    /// goes to its first cell. Otherwise no cell is left being edited.
    pub open spec fn with_score(self, r: int, p: int, v: i8) -> Game {
        let sheet = self.sheet_with_score(r, p, v);
        let next = next_unfilled(sheet[r], p + 1);
        if next < sheet[r].len() {
            Game { rounds: with_cursor(sheet, Some((r, next))), ..self }
        } else if is_complete(sheet[r]) {
            Game {
                rounds: with_cursor(
                    sheet.push(blank_row(self.players.len())),
                    Some((sheet.len() as int, 0)),
                ),
                ..self
            }
        } else {
            Game { rounds: with_cursor(sheet, None), ..self }
        }
    }

    /// Why the cursor cannot go to round `r`, player `p`, if it cannot.
    pub open spec fn refuses_edit(self, r: int, p: int) -> Option<GameError> {
        if !in_sheet(self.rounds, r, p) {
            Some(GameError::IndexOutOfRange)
        } else {
            None
        }
    }

    /// The game after the cursor went to round `r`, player `p`. No value
    /// changes.
    pub open spec fn with_editing(self, r: int, p: int) -> Game {
        Game { rounds: with_cursor(self.rounds, Some((r, p))), ..self }
    }

    /// Why `command` is refused, if it is.
    pub open spec fn refuses(self, command: Command) -> Option<GameError> {
        match command {
            Command::ScoreEnter(r, p, _) => self.refuses_score(r, p),
            Command::ScoreEdit(r, p) => self.refuses_edit(r, p),
            Command::GameNew => None,
            Command::GameStart => self.refuses_start(),
            Command::PlayerAdd(name) => self.refuses_player(name),
            Command::PlayerRemove(idx) => self.refuses_removal(idx),
        }
    }

    /// The game after `command` was carried out.
    pub open spec fn carried_out(self, command: Command) -> Game {
        match command {
            Command::ScoreEnter(r, p, v) => self.with_score(r, p, v),
            Command::ScoreEdit(r, p) => self.with_editing(r, p),
            Command::GameNew => self.reset(),
            Command::GameStart => self.begun(),
            Command::PlayerAdd(name) => self.with_player(name),
            Command::PlayerRemove(idx) => self.without_player(idx),
        }
    }

    /// The game after `command` was given: carried out if it is accepted,
    /// and the same game if it is refused.
    pub open spec fn after(self, command: Command) -> Game {
        if self.refuses(command) is None {
            self.carried_out(command)
        } else {
            self
        }
    }
}

/// Whatever command is given to a well-formed game, the game after it is
/// well formed: no sequence of commands leads out of the well-formed games.
pub proof fn lemma_after_wf(game: Game, command: Command)
    requires
        game.wf(),
    ensures
        game.after(command).wf(),
{
    if game.refuses(command) is None {
        match command {
            Command::ScoreEnter(r, p, v) => {
                let sheet = game.sheet_with_score(r, p, v);
                let next = next_unfilled(sheet[r], p + 1);
                lemma_next_unfilled(sheet[r], p + 1);
                if next < sheet[r].len() {
                    lemma_with_cursor(sheet, Some((r, next)));
                } else if is_complete(sheet[r]) {
                    let longer = sheet.push(blank_row(game.players.len()));
                    lemma_with_cursor(longer, Some((sheet.len() as int, 0)));
                } else {
                    lemma_with_cursor(sheet, None);
                }
            },
            Command::ScoreEdit(r, p) => {
                lemma_with_cursor(game.rounds, Some((r, p)));
            },
            Command::GameNew => {},
            Command::GameStart => {
                lemma_with_cursor(seq![blank_row(game.players.len())], Some((0, 0)));
            },
            Command::PlayerAdd(name) => {},
            Command::PlayerRemove(idx) => {},
        }
    }
}

} // verus!
