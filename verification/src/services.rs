//! The state shared by the views: the JSON dataset, the static directory and
//! the cache of rendered items, set once at start-up.

use vstd::prelude::*;
use std::collections::HashMap;
use crate::models::DatasetItem;

verus! {

broadcast use vstd::std_specs::hash::group_hash_axioms;

/// The cache of encoded items that the read endpoint serves, by item id.
pub struct CrudCache {
    entries: HashMap<i64, Vec<u8>>,
}

impl View for CrudCache {
    type V = Map<i64, Seq<u8>>;

    closed spec fn view(&self) -> Map<i64, Seq<u8>> {
        self.entries@.map_values(|v: Vec<u8>| v@)
    }
}

impl CrudCache {
    /// An empty cache.
    pub fn new() -> (c: CrudCache)
        ensures
            c@ == Map::<i64, Seq<u8>>::empty(),
    {
        let c = CrudCache { entries: HashMap::new() };
        assert(c@ =~= Map::<i64, Seq<u8>>::empty());
        c
    }

    /// The body cached for item `id`.
    pub fn get(&self, id: i64) -> (r: Option<Vec<u8>>)
        ensures
            r matches Some(b) ==> self@.contains_key(id) && self@[id] == b@,
            r is None ==> !self@.contains_key(id),
    {
        match self.entries.get(&id) {
            Some(body) => Some(vstd::slice::slice_to_vec(body.as_slice())),
            None => None,
        }
    }

    /// Caches `body` for item `id`.
    pub fn set(&mut self, id: i64, body: Vec<u8>)
        ensures
            final(self)@ == old(self)@.insert(id, body@),
    {
        let ghost b = body@;
        self.entries.insert(id, body);
        assert(self@ =~= old(self)@.insert(id, b));
    }

    /// Drops what is cached for item `id`.
    pub fn delete(&mut self, id: i64)
        ensures
            final(self)@ == old(self)@.remove(id),
    {
        self.entries.remove(&id);
        assert(self@ =~= old(self)@.remove(id));
    }
}

/// Law: a read of the cache gives back the last body set for that id, and a
/// set leaves every other id as it was.
pub proof fn lemma_cache_read_after_set(before: Map<i64, Seq<u8>>, id: i64, body: Seq<u8>, other: i64)
    ensures
        before.insert(id, body).contains_key(id),
        before.insert(id, body)[id] == body,
        other != id ==> (before.insert(id, body).contains_key(other) == before.contains_key(other)
            && before.insert(id, body)[other] == before[other]),
{
}

/// Law: after a delete the cache holds nothing for that id, and every other
/// id keeps its body.
pub proof fn lemma_cache_read_after_delete(before: Map<i64, Seq<u8>>, id: i64, other: i64)
    ensures
        !before.remove(id).contains_key(id),
        other != id ==> (before.remove(id).contains_key(other) == before.contains_key(other)
            && before.remove(id)[other] == before[other]),
{
}

/// Process-wide data shared by the views.
pub struct ArenaState {
    dataset: Vec<DatasetItem>,
    static_dir: String,
    crud_cache: CrudCache,
}

impl ArenaState {
    pub closed spec fn spec_dataset(&self) -> Seq<DatasetItem> {
        self.dataset@
    }

    pub closed spec fn spec_static_dir(&self) -> Seq<char> {
        self.static_dir@
    }

    pub closed spec fn spec_cache(&self) -> Map<i64, Seq<u8>> {
        self.crud_cache@
    }

    /// The state with the given dataset and static directory and an empty cache.
    pub fn new(dataset: Vec<DatasetItem>, static_dir: String) -> (s: ArenaState)
        ensures
            s.spec_dataset() == dataset@,
            s.spec_static_dir() == static_dir@,
            s.spec_cache() == Map::<i64, Seq<u8>>::empty(),
    {
        ArenaState { dataset, static_dir, crud_cache: CrudCache::new() }
    }

    pub fn dataset(&self) -> (r: &[DatasetItem])
        ensures
            r@ == self.spec_dataset(),
    {
        self.dataset.as_slice()
    }

    pub fn static_dir(&self) -> (r: &str)
        ensures
            r@ == self.spec_static_dir(),
    {
        self.static_dir.as_str()
    }

    pub fn crud_cache(&self) -> (r: &CrudCache)
        ensures
            r@ == self.spec_cache(),
    {
        &self.crud_cache
    }

    /// The cache, to change it.
    pub fn crud_cache_mut(&mut self) -> (r: &mut CrudCache)
        ensures
            r@ == old(self).spec_cache(),
            final(self).spec_dataset() == old(self).spec_dataset(),
            final(self).spec_static_dir() == old(self).spec_static_dir(),
            final(self).spec_cache() == final(r)@,
    {
        &mut self.crud_cache
    }
}

/// The slot that holds the shared state once it has been set.
pub struct StateSlot {
    state: Option<ArenaState>,
}

impl StateSlot {
    pub closed spec fn is_set(&self) -> bool {
        self.state is Some
    }

    pub closed spec fn value(&self) -> ArenaState {
        self.state->0
    }

    /// A slot with nothing in it.
    pub fn new() -> (s: StateSlot)
        ensures
            !s.is_set(),
    {
        StateSlot { state: None }
    }
}

/// Sets the shared state. Only the first call does so; a later one hands its
/// state back and leaves the slot as it was.
pub fn initialize_state(slot: &mut StateSlot, state: ArenaState) -> (r: Result<(), ArenaState>)
    ensures
        old(slot).is_set() ==> r == Err::<(), ArenaState>(state) && *final(slot) == *old(slot),
        !old(slot).is_set() ==> r is Ok && final(slot).is_set() && final(slot).value() == state,
{
    if slot.state.is_some() {
        Err(state)
    } else {
        slot.state = Some(state);
        Ok(())
    }
}

/// The shared state, to change it; it must have been set.
pub fn state_mut(slot: &mut StateSlot) -> (r: &mut ArenaState)
    requires
        old(slot).is_set(),
    ensures
        *r == old(slot).value(),
        final(slot).is_set(),
        final(slot).value() == *final(r),
{
    slot.state.as_mut().unwrap()
}

/// The shared state; it must have been set.
pub fn state(slot: &StateSlot) -> (r: &ArenaState)
    requires
        slot.is_set(),
    ensures
        *r == slot.value(),
{
    slot.state.as_ref().unwrap()
}

} // verus!
