use std::collections::HashMap;
use vstd::prelude::*;
use vstd::std_specs::hash::spec_values_iter;
use vstd::std_specs::iter::IteratorSpec;

verus! {

broadcast use vstd::std_specs::hash::group_hash_axioms;

/// An entity that knows its own identifier: the key a store keeps it under.
pub trait Identified {
    /// The identifier of this entity.
    spec fn spec_id(&self) -> u8;

    /// Returns the identifier of this entity.
    fn get_id(&self) -> (r: u8)
        ensures
            r == self.spec_id(),
    ;
}

/// What a store holds at `id`, if anything.
pub open spec fn stored_at<T>(m: Map<u8, T>, id: u8) -> Option<T> {
    if m.contains_key(id) {
        Some(m[id])
    } else {
        None
    }
}

/// A keyed collection of self-identifying entities, at most one per identifier.
pub trait Store<T: Identified> {
    /// The entities held, by identifier.
    spec fn contents(&self) -> Map<u8, T>;

    /// Stores `value` under its own identifier, replacing what was there.
    /// Returns the entity it replaced, if any.
    fn save(&mut self, value: T) -> (r: Option<T>)
        ensures
            final(self).contents() == old(self).contents().insert(value.spec_id(), value),
            r == stored_at(old(self).contents(), value.spec_id()),
    ;

    /// Removes the entity stored under `id` and returns it, if any.
    fn delete(&mut self, id: &u8) -> (r: Option<T>)
        ensures
            final(self).contents() == old(self).contents().remove(*id),
            r == stored_at(old(self).contents(), *id),
    ;

    /// Looks up the entity stored under `id`.
    fn get(&self, id: &u8) -> (r: Option<&T>)
        ensures
            match r {
                Some(v) => stored_at(self.contents(), *id) == Some(*v),
                None => stored_at(self.contents(), *id) is None,
            },
    ;

    /// Every entity held, in no particular order, each once per identifier.
    fn get_all(&self) -> (r: Vec<&T>)
        ensures
            r@.len() == self.contents().len(),
            r@.unref().to_set() == self.contents().values(),
    ;

    /// The number of identifiers that hold an entity.
    fn len(&self) -> (r: usize)
        ensures
            r == self.contents().len(),
    ;
}

/// One change made to a store through its writing operations.
pub enum Change<T> {
    Save(T),
    Delete(u8),
}

/// The contents after `c`, as the contracts of `save` and `delete` give them.
pub open spec fn apply<T: Identified>(m: Map<u8, T>, c: Change<T>) -> Map<u8, T> {
    match c {
        Change::Save(v) => m.insert(v.spec_id(), v),
        Change::Delete(id) => m.remove(id),
    }
}

/// The contents after the changes `cs`, made in order from `m`.
pub open spec fn replay<T: Identified>(m: Map<u8, T>, cs: Seq<Change<T>>) -> Map<u8, T>
    decreases cs.len(),
{
    if cs.len() == 0 {
        m
    } else {
        apply(replay(m, cs.drop_last()), cs.last())
    }
}

/// Whether `id` holds an entity after the changes `cs`: the last change that
/// names `id` decides, and the starting contents decide if none does.
pub open spec fn held_after<T: Identified>(m: Map<u8, T>, cs: Seq<Change<T>>, id: u8) -> bool
    decreases cs.len(),
{
    if cs.len() == 0 {
        m.contains_key(id)
    } else {
        match cs.last() {
            Change::Save(v) => v.spec_id() == id || held_after(m, cs.drop_last(), id),
            Change::Delete(j) => j != id && held_after(m, cs.drop_last(), id),
        }
    }
}

/// After any sequence of saves and deletes, the length of a store is the
/// number of distinct identifiers that hold an entity: an identifier saved
/// many times counts once.
pub proof fn lemma_len_counts_distinct_ids<T: Identified>(m: Map<u8, T>, cs: Seq<Change<T>>)
    requires
        m.dom().finite(),
    ensures
        replay(m, cs).dom().finite(),
        replay(m, cs).dom() == Set::new(|id: u8| held_after(m, cs, id)),
        replay(m, cs).len() == Set::new(|id: u8| held_after(m, cs, id)).len(),
    decreases cs.len(),
{
    if cs.len() > 0 {
        lemma_len_counts_distinct_ids(m, cs.drop_last());
    }
    assert(replay(m, cs).dom() =~= Set::new(|id: u8| held_after(m, cs, id)));
}

/// A save followed by a lookup of the saved identifier finds the saved entity.
pub proof fn lemma_save_then_get<T: Identified>(before: Map<u8, T>, value: T)
    ensures
        stored_at(before.insert(value.spec_id(), value), value.spec_id()) == Some(value),
{
}

/// A save on an identifier already held returns the previous entity and
/// keeps the length; a save on a free identifier returns nothing and adds one.
pub proof fn lemma_save_len<T: Identified>(before: Map<u8, T>, value: T)
    requires
        before.dom().finite(),
    ensures
        before.contains_key(value.spec_id()) ==> {
            &&& stored_at(before, value.spec_id()) == Some(before[value.spec_id()])
            &&& before.insert(value.spec_id(), value).len() == before.len()
        },
        !before.contains_key(value.spec_id()) ==> {
            &&& stored_at(before, value.spec_id()) is None
            &&& before.insert(value.spec_id(), value).len() == before.len() + 1
        },
{
}

/// A delete of a held identifier returns its entity and takes one off the
/// length; a delete of a free identifier returns nothing and changes nothing.
pub proof fn lemma_delete_len<T: Identified>(before: Map<u8, T>, id: u8)
    requires
        before.dom().finite(),
    ensures
        before.contains_key(id) ==> {
            &&& stored_at(before, id) == Some(before[id])
            &&& before.remove(id).len() == before.len() - 1
        },
        !before.contains_key(id) ==> {
            &&& stored_at(before, id) is None
            &&& before.remove(id) == before
        },
{
    if !before.contains_key(id) {
        assert(before.remove(id) =~= before);
    }
}

/// A store kept in process memory, as a hash map from identifier to entity.
#[derive(Clone)]
pub struct InMemoryStore<T> {
    data: HashMap<u8, T>,
}

impl<T> View for InMemoryStore<T> {
    type V = Map<u8, T>;

    closed spec fn view(&self) -> Map<u8, T> {
        self.data@
    }
}

impl<T> InMemoryStore<T> {
    /// An empty store.
    pub fn new() -> (r: InMemoryStore<T>)
        ensures
            r@ == Map::<u8, T>::empty(),
    {
        InMemoryStore { data: HashMap::new() }
    }

    /// A store that starts out holding `init_data`, keys as given.
    pub fn init(init_data: HashMap<u8, T>) -> (r: InMemoryStore<T>)
        ensures
            r@ == init_data@,
    {
        InMemoryStore { data: init_data }
    }

    /// The contents of a store are finite.
    pub proof fn lemma_finite(&self)
        ensures
            self@.dom().finite(),
    {
    }
}

impl<T: Identified> Store<T> for InMemoryStore<T> {
    open spec fn contents(&self) -> Map<u8, T> {
        self@
    }

    fn save(&mut self, value: T) -> (r: Option<T>) {
        let id = value.get_id();
        self.data.insert(id, value)
    }

    fn delete(&mut self, id: &u8) -> (r: Option<T>) {
        self.data.remove(id)
    }

    fn get(&self, id: &u8) -> (r: Option<&T>) {
        self.data.get(id)
    }

    fn get_all(&self) -> (r: Vec<&T>) {
        let mut all: Vec<&T> = Vec::new();
        for v in it: self.data.values()
            invariant
                all@ == it.seq().take(it.index()),
                it.seq() == spec_values_iter(&self.data).remaining(),
        {
            all.push(v);
        }
        proof {
            assert(all@ =~= spec_values_iter(&self.data).remaining());
        }
        all
    }

    fn len(&self) -> (r: usize) {
        self.data.len()
    }
}

} // verus!
