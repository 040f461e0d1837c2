use vstd::prelude::*;

pub mod controller;
pub mod game;
pub mod game_repository;
pub mod store;

pub use crate::controller::Status;
pub use crate::game::Game;
pub use crate::game_repository::{GameRepository, InMemoryGameRepository};
pub use crate::store::{Identified, InMemoryStore, Store};

verus! {

} // verus!
