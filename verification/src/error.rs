//! Why a command is turned down.

use vstd::prelude::*;

verus! {

/// The reason a command was refused. A refused command changes nothing.
#[derive(Clone, Copy, Debug, PartialEq, Eq, Structural)]
pub enum GameError {
    /// A player was to be added under an empty name.
    EmptyName,
    /// A player position or a cell position lies outside the roster or the
    /// score sheet.
    IndexOutOfRange,
    /// A game was to be started with fewer than two players.
    TooFewPlayers,
    /// A score was to be entered while no game is running.
    NotStarted,
    /// The roster was to be changed, or a game started, while a game is
    /// running.
    AlreadyStarted,
}

/// The two families of refusal: bad arguments, and a command given at the
/// wrong moment.
#[derive(Clone, Copy, Debug, PartialEq, Eq, Structural)]
pub enum ErrorKind {
    /// The arguments themselves are unacceptable: an empty name, a position
    /// out of range.
    Validation,
    /// The arguments may be fine, but the game is not in a state that admits
    /// the command.
    Precondition,
}

impl GameError {
    /// The family an error belongs to.
    pub open spec fn spec_kind(self) -> ErrorKind {
        match self {
            GameError::EmptyName | GameError::IndexOutOfRange => ErrorKind::Validation,
            GameError::TooFewPlayers | GameError::NotStarted | GameError::AlreadyStarted =>
                ErrorKind::Precondition,
        }
    }

    /// Tells which family the error belongs to.
    #[verifier::when_used_as_spec(spec_kind)]
    pub fn kind(self) -> (kind: ErrorKind)
        ensures
            kind == self.spec_kind(),
    {
        match self {
            GameError::EmptyName | GameError::IndexOutOfRange => ErrorKind::Validation,
            GameError::TooFewPlayers | GameError::NotStarted | GameError::AlreadyStarted =>
                ErrorKind::Precondition,
        }
    }
}

} // verus!
