use std::collections::HashMap;
use vstd::prelude::*;

use crate::game::Game;
use crate::store::stored_at;
use vstd::std_specs::hash::spec_values_iter;
use vstd::std_specs::iter::IteratorSpec;

verus! {

broadcast use vstd::std_specs::hash::group_hash_axioms;

/// A keyed collection of games, at most one per identifier.
pub trait GameRepository {
    /// The games held, by identifier.
    spec fn games(&self) -> Map<u8, Game>;

    /// Stores `value` under its identifier, replacing what was there.
    /// Returns the game it replaced, if any.
    fn save(&mut self, value: Game) -> (r: Option<Game>)
        ensures
            final(self).games() == old(self).games().insert(value.id, value),
            r == stored_at(old(self).games(), value.id),
    ;

    /// Removes the game stored under `id` and returns it, if any.
    fn delete(&mut self, id: &u8) -> (r: Option<Game>)
        ensures
            final(self).games() == old(self).games().remove(*id),
            r == stored_at(old(self).games(), *id),
    ;

    /// Looks up the game stored under `id`.
    fn get(&self, id: &u8) -> (r: Option<&Game>)
        ensures
            match r {
                Some(g) => stored_at(self.games(), *id) == Some(*g),
                None => stored_at(self.games(), *id) is None,
            },
    ;

    /// Every game held, in no particular order, each once per identifier.
    fn get_all(&self) -> (r: Vec<&Game>)
        ensures
            r@.len() == self.games().len(),
            r@.unref().to_set() == self.games().values(),
    ;

    /// The number of identifiers that hold a game.
    fn len(&self) -> (r: usize)
        ensures
            r == self.games().len(),
    ;
}

/// A game repository kept in process memory, as a hash map from identifier to game.
#[derive(Clone)]
pub struct InMemoryGameRepository {
    data: HashMap<u8, Game>,
}

impl View for InMemoryGameRepository {
    type V = Map<u8, Game>;

    closed spec fn view(&self) -> Map<u8, Game> {
        self.data@
    }
}

impl InMemoryGameRepository {
    /// An empty repository.
    pub fn new() -> (r: InMemoryGameRepository)
        ensures
            r@ == Map::<u8, Game>::empty(),
    {
        InMemoryGameRepository { data: HashMap::new() }
    }

    /// A repository that starts out holding `init_data`, keys as given.
    pub fn init(init_data: HashMap<u8, Game>) -> (r: InMemoryGameRepository)
        ensures
            r@ == init_data@,
    {
        InMemoryGameRepository { data: init_data }
    }
}

impl GameRepository for InMemoryGameRepository {
    open spec fn games(&self) -> Map<u8, Game> {
        self@
    }

    fn save(&mut self, value: Game) -> (r: Option<Game>) {
        self.data.insert(value.id, value)
    }

    fn delete(&mut self, id: &u8) -> (r: Option<Game>) {
        self.data.remove(id)
    }

    fn get(&self, id: &u8) -> (r: Option<&Game>) {
        self.data.get(id)
    }

    fn get_all(&self) -> (r: Vec<&Game>) {
        let mut all: Vec<&Game> = Vec::new();
        for g in it: self.data.values()
            invariant
                all@ == it.seq().take(it.index()),
                it.seq() == spec_values_iter(&self.data).remaining(),
        {
            all.push(g);
        }
        proof {
            assert(all@ =~= spec_values_iter(&self.data).remaining());
        }
        all
    }

    fn len(&self) -> (r: usize) {
        self.data.len()
    }
}

} // verus!
