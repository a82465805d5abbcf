//! The people at the table.

use vstd::prelude::*;

verus! {

/// A player on the roster.
///
/// `id` is stamped when the player joins and never changes afterwards. The
/// rest of the library addresses players by their position in the roster,
/// never by `id`: a column of the score sheet belongs to the player at the
/// same position.
#[derive(Debug, PartialEq, Eq)]
pub struct Player {
    pub id: u32,
    pub name: String,
}

/// What a [`Player`] is to the contracts: the stamped number and the name as
/// a sequence of characters.
pub struct PlayerView {
    pub id: u32,
    pub name: Seq<char>,
}

impl View for Player {
    type V = PlayerView;

    open spec fn view(&self) -> PlayerView {
        PlayerView { id: self.id, name: self.name@ }
    }
}

impl Clone for Player {
    fn clone(&self) -> (copy: Player)
        ensures
            copy == *self,
    {
        Player { id: self.id, name: self.name.clone() }
    }
}

impl Player {
    /// Creates a player with the given number and name.
    pub fn new(id: u32, name: String) -> (player: Player)
        ensures
            player.id == id,
            player.name == name,
    {
        Player { id, name }
    }
}

} // verus!
