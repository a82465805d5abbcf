//! The running game: roster, score sheet and cursor, changed only through
//! the commands.

use vstd::prelude::*;
use crate::error::GameError;
use crate::game::{lemma_after_wf, Command, Game, DEFAULT_TARGET, MIN_PLAYERS};
use crate::player::Player;
use crate::round::Round;
use crate::saved::SavedGame;
use crate::score::Score;
use crate::grid::{cell_view, find_cursor, place_cursor, roster_view, sheet_view};
use crate::sheet::{
    blank_row, in_sheet, is_first_cursor, no_cursor, single_cursor, with_cursor,
};

verus! {

/// The state of the score keeper: who plays, what was scored, whether play
/// has begun, and the target score.
///
/// A state is made by [`State::new`] or [`State::restore`] and changed only
/// by the commands below, so every state a caller can hold is well formed
/// (see [`Game::wf`]). No command asks for that: each is defined on every
/// state and keeps a well-formed state well formed.
#[derive(Debug)]
pub struct State {
    players: Vec<Player>,
    rounds: Vec<Round>,
    is_game_started: bool,
    first_to: u32,
}

impl View for State {
    type V = Game;

    closed spec fn view(&self) -> Game {
        Game {
            players: roster_view(self.players@),
            rounds: sheet_view(self.rounds@),
            started: self.is_game_started,
            target: self.first_to,
        }
    }
}

impl State {
    /// Creates the state before anything happened: an empty roster, no
    /// round, not started, the default target.
    pub fn new() -> (state: State)
        ensures
            state@ == Game::fresh(),
            state@.wf(),
    {
        let state = State {
            players: Vec::new(),
            rounds: Vec::new(),
            is_game_started: false,
            first_to: DEFAULT_TARGET,
        };
        assert(state@.players =~= Game::fresh().players);
        assert(state@.rounds =~= Game::fresh().rounds);
        state
    }

    /// Adds a player at the end of the roster, stamped with the number of
    /// players that were there before.
    ///
    /// Refused while a game is running, and for an empty name.
    pub fn player_add(&mut self, name: String) -> (res: Result<(), GameError>)
        ensures
            match old(self)@.refuses_player(name@) {
                Some(e) => res == Err::<(), GameError>(e) && final(self)@ == old(self)@,
                None => res is Ok && final(self)@ == old(self)@.with_player(name@),
            },
            res is Ok && old(self)@.players.len() <= u32::MAX ==> final(self)@.players.last().id
                == old(self)@.players.len(),
            old(self)@.wf() ==> final(self)@.wf(),
    {
        if self.is_game_started {
            return Err(GameError::AlreadyStarted);
        }
        if name.as_str().is_empty() {
            return Err(GameError::EmptyName);
        }
        let id = #[verifier::truncate] (self.players.len() as u32);
        self.players.push(Player { id, name });
        assert(self@.players =~= old(self)@.with_player(name@).players);
        Ok(())
    }

    /// Removes the player at position `idx`. The players behind move up by
    /// one; nobody's stamp changes.
    ///
    /// Refused while a game is running, and for a position outside the
    /// roster.
    pub fn player_remove(&mut self, idx: usize) -> (res: Result<(), GameError>)
        ensures
            match old(self)@.refuses_removal(idx as int) {
                Some(e) => res == Err::<(), GameError>(e) && final(self)@ == old(self)@,
                None => res is Ok && final(self)@ == old(self)@.without_player(idx as int),
            },
            old(self)@.wf() ==> final(self)@.wf(),
    {
        if self.is_game_started {
            return Err(GameError::AlreadyStarted);
        }
        if idx >= self.players.len() {
            return Err(GameError::IndexOutOfRange);
        }
        self.players.remove(idx);
        assert(self@.players =~= old(self)@.without_player(idx as int).players);
        Ok(())
    }

    /// Appends a round of unfilled cells, one per player, and moves the
    /// cursor to its first cell.
    fn next_round(&mut self)
        ensures
            final(self)@ == (Game {
                rounds: with_cursor(
                    old(self)@.rounds.push(blank_row(old(self)@.players.len())),
                    Some((old(self)@.rounds.len() as int, 0)),
                ),
                ..old(self)@
            }),
    {
        let at = self.rounds.len();
        let round = Round::blank(self.players.len());
        self.rounds.push(round);
        assert(sheet_view(self.rounds@) =~= old(self)@.rounds.push(
            blank_row(old(self)@.players.len()),
        ));
        place_cursor(&mut self.rounds, Some((at, 0)));
    }

    /// Starts the game: the score sheet gets its first round, and the cursor
    /// goes to that round's first cell.
    ///
    /// Refused while a game is running, and with fewer than two players.
    pub fn game_start(&mut self) -> (res: Result<(), GameError>)
        ensures
            match old(self)@.refuses_start() {
                Some(e) => res == Err::<(), GameError>(e) && final(self)@ == old(self)@,
                None => res is Ok && final(self)@ == old(self)@.begun(),
            },
            old(self)@.wf() ==> final(self)@.wf(),
    {
        if self.is_game_started {
            return Err(GameError::AlreadyStarted);
        }
        if self.players.len() < MIN_PLAYERS {
            return Err(GameError::TooFewPlayers);
        }
        proof {
            if self@.wf() {
                lemma_after_wf(self@, Command::GameStart);
            }
        }
        self.is_game_started = true;
        // A well-formed state holds no round here; whatever it holds, the
        // game begins with exactly one.
        self.rounds.clear();
        self.next_round();
        assert(self@.rounds =~~= old(self)@.begun().rounds);
        Ok(())
    }

    /// Calls the game off: the score sheet is emptied and the roster can be
    /// changed again. The roster and the target score stay.
    pub fn game_new(&mut self)
        ensures
            final(self)@ == old(self)@.reset(),
            old(self)@.wf() ==> final(self)@.wf(),
    {
        self.rounds.clear();
        self.is_game_started = false;
        assert(self@.rounds =~= old(self)@.reset().rounds);
    }

    /// Enters `score` for player `player` in round `round`.
    ///
    /// The cursor then goes to the first unfilled cell of that round to the
    /// right of `player`. If there is none and the round is complete, a new
    /// round is appended and the cursor goes to its first cell. If there is
    /// none and the round still has an unfilled cell further left, no cell
    /// is left being edited.
    ///
    /// Refused while no game is running, and for a position outside the
    /// score sheet.
    pub fn score_enter(&mut self, round: usize, player: usize, score: i8) -> (res: Result<
        (),
        GameError,
    >)
        ensures
            match old(self)@.refuses_score(round as int, player as int) {
                Some(e) => res == Err::<(), GameError>(e) && final(self)@ == old(self)@,
                None => res is Ok && final(self)@ == old(self)@.with_score(
                    round as int,
                    player as int,
                    score,
                ),
            },
            old(self)@.wf() ==> final(self)@.wf(),
    {
        if !self.is_game_started {
            return Err(GameError::NotStarted);
        }
        if round >= self.rounds.len() || player >= self.rounds[round].scores.len() {
            return Err(GameError::IndexOutOfRange);
        }
        proof {
            if self@.wf() {
                lemma_after_wf(self@, Command::ScoreEnter(round as int, player as int, score));
            }
        }
        self.rounds[round].scores[player] = Score { val: Some(score), is_editing: false };
        assert(sheet_view(self.rounds@) =~~= old(self)@.sheet_with_score(
            round as int,
            player as int,
            score,
        ));
        let width = self.rounds[round].scores.len();
        let next = self.rounds[round].next_unfilled(player + 1);
        if next < width {
            place_cursor(&mut self.rounds, Some((round, next)));
        } else if self.rounds[round].is_complete() {
            self.next_round();
        } else {
            place_cursor(&mut self.rounds, None);
        }
        Ok(())
    }

    /// Moves the cursor to round `round`, player `player`: that cell is
    /// being edited afterwards and no other is. No value changes.
    ///
    /// Refused for a position outside the score sheet.
    pub fn score_edit(&mut self, round: usize, player: usize) -> (res: Result<(), GameError>)
        ensures
            match old(self)@.refuses_edit(round as int, player as int) {
                Some(e) => res == Err::<(), GameError>(e) && final(self)@ == old(self)@,
                None => res is Ok && final(self)@ == old(self)@.with_editing(
                    round as int,
                    player as int,
                ),
            },
            old(self)@.wf() ==> final(self)@.wf(),
    {
        if round >= self.rounds.len() || player >= self.rounds[round].scores.len() {
            return Err(GameError::IndexOutOfRange);
        }
        proof {
            if self@.wf() {
                lemma_after_wf(self@, Command::ScoreEdit(round as int, player as int));
            }
        }
        place_cursor(&mut self.rounds, Some((round, player)));
        Ok(())
    }

    /// Finds the cell being edited. On a well-formed state there is at most
    /// one; in general the first in reading order is returned.
    pub fn focused(&self) -> (at: Option<(usize, usize)>)
        ensures
            match at {
                Some((r, p)) => is_first_cursor(self@.rounds, r as int, p as int),
                None => no_cursor(self@.rounds),
            },
            single_cursor(self@.rounds) ==> cell_view(at) == self@.focused(),
    {
        find_cursor(&self.rounds)
    }

    /// Finds the cell being edited, as `(round, player)`. While no cell is
    /// being edited the answer is `(0, 0)`, which names a cell only once the
    /// first round exists.
    pub fn get_focused(&self) -> (at: (usize, usize))
        ensures
            no_cursor(self@.rounds) ==> at == (0usize, 0usize),
            !no_cursor(self@.rounds) ==> is_first_cursor(self@.rounds, at.0 as int, at.1 as int),
            single_cursor(self@.rounds) ==> (at.0 as int, at.1 as int) == match self@.focused() {
                Some(cell) => cell,
                None => (0int, 0int),
            },
    {
        match self.focused() {
            Some(at) => at,
            None => (0, 0),
        }
    }

    /// The roster, in order.
    pub fn players(&self) -> (players: &Vec<Player>)
        ensures
            roster_view(players@) == self@.players,
    {
        &self.players
    }

    /// The score sheet, oldest round first.
    pub fn rounds(&self) -> (rounds: &Vec<Round>)
        ensures
            sheet_view(rounds@) == self@.rounds,
    {
        &self.rounds
    }

    /// Whether a game is running.
    pub fn is_game_started(&self) -> (started: bool)
        ensures
            started == self@.started,
    {
        self.is_game_started
    }

    /// The target score.
    pub fn first_to(&self) -> (target: u32)
        ensures
            target == self@.target,
    {
        self.first_to
    }

    /// The cell of player `player` in round `round`, if the sheet has it.
    pub fn cell(&self, round: usize, player: usize) -> (cell: Option<Score>)
        ensures
            cell == if in_sheet(self@.rounds, round as int, player as int) {
                Some(self@.rounds[round as int][player as int])
            } else {
                None
            },
    {
        if round < self.rounds.len() && player < self.rounds[round].scores.len() {
            Some(self.rounds[round].scores[player])
        } else {
            None
        }
    }

    /// Writes the record to store for this state.
    pub fn save(&self) -> (saved: SavedGame)
        ensures
            saved@ == self@.saved(),
    {
        let saved = SavedGame {
            players: self.players.clone(),
            rounds: self.rounds.clone(),
            started: self.is_game_started,
            target: Some(self.first_to),
        };
        assert(saved@.rounds =~= self@.rounds);
        saved
    }

    /// Takes up the game that a record describes, if the record is sound.
    pub fn restore(saved: SavedGame) -> (state: Option<State>)
        ensures
            state is Some <==> saved@.is_sound(),
            state matches Some(s) ==> s@ == saved@.game() && s@.wf(),
    {
        if saved.is_sound() {
            let first_to = match saved.target {
                Some(target) => target,
                None => DEFAULT_TARGET,
            };
            Some(
                State {
                    players: saved.players,
                    rounds: saved.rounds,
                    is_game_started: saved.started,
                    first_to,
                },
            )
        } else {
            None
        }
    }

    /// The state to go on with after storage was read: the game of the
    /// record if there is a record and it is sound, a fresh state otherwise.
    pub fn load(saved: Option<SavedGame>) -> (state: State)
        ensures
            state@ == match saved {
                Some(record) => record@.restored(),
                None => Game::fresh(),
            },
            state@.wf(),
    {
        match saved {
            Some(record) => match State::restore(record) {
                Some(state) => state,
                None => State::new(),
            },
            None => State::new(),
        }
    }
}

} // verus!
