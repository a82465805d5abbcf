//! The controller: it owns the state, takes the commands one at a time and
//! answers what the display needs to know.

use vstd::prelude::*;
use crate::error::GameError;
use crate::game::{Command, Game};
use crate::saved::SavedGame;
use crate::grid::cell_view;
use crate::sheet::{is_first_cursor, no_cursor, single_cursor};
use crate::state::State;

verus! {

/// A command from the display.
#[derive(Debug)]
pub enum AppMsg {
    /// Enter a score: round, player, value.
    ScoreEnter(usize, usize, i8),
    /// Move the cursor: round, player.
    ScoreEdit(usize, usize),
    /// Call the game off and keep the roster.
    GameNew,
    /// Start the game.
    GameStart,
    /// Add a player of this name.
    PlayerAdd(String),
    /// Remove the player at this position of the roster.
    PlayerRemove(usize),
}

impl View for AppMsg {
    type V = Command;

    open spec fn view(&self) -> Command {
        match *self {
            AppMsg::ScoreEnter(r, p, v) => Command::ScoreEnter(r as int, p as int, v),
            AppMsg::ScoreEdit(r, p) => Command::ScoreEdit(r as int, p as int),
            AppMsg::GameNew => Command::GameNew,
            AppMsg::GameStart => Command::GameStart,
            AppMsg::PlayerAdd(name) => Command::PlayerAdd(name@),
            AppMsg::PlayerRemove(idx) => Command::PlayerRemove(idx as int),
        }
    }
}

/// The controller of one score keeper.
///
/// Storage is not its business: it is handed what was read at the start,
/// and hands out the record to write after a command.
#[derive(Debug)]
pub struct App {
    state: State,
}

impl View for App {
    type V = Game;

    closed spec fn view(&self) -> Game {
        self.state@
    }
}

impl App {
    /// Sets the controller up from what storage held: the stored game if
    /// there is a record and it is sound, a fresh game otherwise.
    pub fn create(saved: Option<SavedGame>) -> (app: App)
        ensures
            app@ == match saved {
                Some(record) => record@.restored(),
                None => Game::fresh(),
            },
            app@.wf(),
    {
        App { state: State::load(saved) }
    }

    /// Carries out one command, or refuses it and changes nothing.
    pub fn update(&mut self, msg: AppMsg) -> (res: Result<(), GameError>)
        ensures
            match old(self)@.refuses(msg@) {
                Some(e) => res == Err::<(), GameError>(e) && final(self)@ == old(self)@,
                None => res is Ok && final(self)@ == old(self)@.carried_out(msg@),
            },
            final(self)@ == old(self)@.after(msg@),
            old(self)@.wf() ==> final(self)@.wf(),
    {
        match msg {
            AppMsg::ScoreEnter(round, player, score) => self.state.score_enter(
                round,
                player,
                score,
            ),
            AppMsg::ScoreEdit(round, player) => self.state.score_edit(round, player),
            AppMsg::GameNew => {
                self.state.game_new();
                Ok(())
            },
            AppMsg::GameStart => self.state.game_start(),
            AppMsg::PlayerAdd(name) => self.state.player_add(name),
            AppMsg::PlayerRemove(idx) => self.state.player_remove(idx),
        }
    }

    /// The state, to read.
    pub fn state(&self) -> (state: &State)
        ensures
            state@ == self@,
    {
        &self.state
    }

    /// The cell being edited, if there is one.
    pub fn focused(&self) -> (at: Option<(usize, usize)>)
        ensures
            match at {
                Some((r, p)) => is_first_cursor(self@.rounds, r as int, p as int),
                None => no_cursor(self@.rounds),
            },
            single_cursor(self@.rounds) ==> cell_view(at) == self@.focused(),
    {
        self.state.focused()
    }

    /// The cell being edited, as `(round, player)`, and `(0, 0)` while there
    /// is none.
    pub fn get_focused(&self) -> (at: (usize, usize))
        ensures
            no_cursor(self@.rounds) ==> at == (0usize, 0usize),
            !no_cursor(self@.rounds) ==> is_first_cursor(self@.rounds, at.0 as int, at.1 as int),
            single_cursor(self@.rounds) ==> (at.0 as int, at.1 as int) == match self@.focused() {
                Some(cell) => cell,
                None => (0int, 0int),
            },
    {
        self.state.get_focused()
    }

    /// The record to write to storage for the present state.
    pub fn save(&self) -> (saved: SavedGame)
        ensures
            saved@ == self@.saved(),
    {
        self.state.save()
    }
}

} // verus!
