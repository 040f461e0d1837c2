use vstd::prelude::*;

use crate::store::Identified;

pub use crate::controller::{delete_game_by_id, get_game_by_id, get_games, update_game_by_id};

verus! {

/// A game held by the service: an identifier chosen by the caller and a name.
#[derive(Debug, Clone, PartialEq, Eq)]
pub struct Game {
    pub id: u8,
    pub name: String,
}

impl Game {
    /// Builds a game from its identifier and name.
    pub fn new(id: u8, name: &str) -> (r: Game)
        ensures
            r.id == id,
            r.name@ == name@,
    {
        Game { id: id, name: name.to_string() }
    }
}

impl Identified for Game {
    open spec fn spec_id(&self) -> u8 {
        self.id
    }

    fn get_id(&self) -> (r: u8) {
        self.id
    }
}

} // verus!
