use vstd::prelude::*;
use std::collections::HashMap;
use vstd::std_specs::iter::IteratorSpec;

verus! {

/// A store of serialized aggregate snapshots in memory, keyed by the ids it
/// hands out in order.
#[derive(Debug)]
pub struct HashMapRepository {
    snapshots: HashMap<u64, String>,
    next_id: u64,
}

impl HashMapRepository {
    /// The stored snapshots by id.
    pub closed spec fn stored(&self) -> Map<u64, String> {
        self.snapshots@
    }

    /// The id the next insert hands out.
    pub closed spec fn spec_next_id(&self) -> u64 {
        self.next_id
    }

    /// An empty store whose first id is 0.
    pub fn new() -> (repository: Self)
        ensures
            repository.stored() == Map::<u64, String>::empty(),
            repository.spec_next_id() == 0,
    {
        HashMapRepository { snapshots: HashMap::new(), next_id: 0 }
    }

    /// The id the next insert hands out.
    pub fn next_id(&self) -> (id: u64)
        ensures
            id == self.spec_next_id(),
    {
        self.next_id
    }

    /// The snapshot stored under `id`, if any.
    pub fn get(&self, id: u64) -> (snapshot: Option<String>)
        ensures
            snapshot matches Some(s) ==> self.stored().contains_key(id) && s == self.stored()[id],
            snapshot is None ==> !self.stored().contains_key(id),
    {
        broadcast use vstd::std_specs::hash::group_hash_axioms;

        match self.snapshots.get(&id) {
            Some(snapshot) => Some(snapshot.clone()),
            None => None,
        }
    }

    /// Stores a snapshot under the next id in order, and returns that id.
    pub fn insert(&mut self, snapshot: String) -> (id: u64)
        requires
            old(self).spec_next_id() < u64::MAX,
        ensures
            id == old(self).spec_next_id(),
            final(self).stored() == old(self).stored().insert(id, snapshot),
            final(self).spec_next_id() == id + 1,
    {
        broadcast use vstd::std_specs::hash::group_hash_axioms;

        let id = self.next_id;
        self.next_id = id + 1;
        self.snapshots.insert(id, snapshot);
        id
    }

    /// Stores a snapshot under `id`, in place of what was there.
    pub fn update(&mut self, id: u64, snapshot: String)
        ensures
            final(self).stored() == old(self).stored().insert(id, snapshot),
            final(self).spec_next_id() == old(self).spec_next_id(),
    {
        broadcast use vstd::std_specs::hash::group_hash_axioms;

        self.snapshots.insert(id, snapshot);
    }

    /// Removes the snapshot stored under `id`, if any.
    pub fn delete(&mut self, id: u64)
        ensures
            final(self).stored() == old(self).stored().remove(id),
            final(self).spec_next_id() == old(self).spec_next_id(),
    {
        broadcast use vstd::std_specs::hash::group_hash_axioms;

        self.snapshots.remove(&id);
    }

    /// Every stored snapshot with its id, each once, in no particular order.
    pub fn list(&self) -> (entries: Vec<(u64, String)>)
        ensures
            entries@.len() == self.stored().dom().len(),
            forall|i: int|
                0 <= i < entries@.len() ==> self.stored().contains_key(#[trigger] entries@[i].0)
                    && self.stored()[entries@[i].0] == entries@[i].1,
            forall|id: u64|
                #[trigger] self.stored().contains_key(id) ==> exists|i: int|
                    0 <= i < entries@.len() && #[trigger] entries@[i].0 == id,
    {
        broadcast use vstd::std_specs::hash::group_hash_axioms;

        let mut entries: Vec<(u64, String)> = Vec::new();
        let ghost all = self.snapshots.iter().remaining();
        for pair in it: self.snapshots.iter()
            invariant
                all == it.seq(),
                entries@.len() == it.index(),
                forall|i: int|
                    0 <= i < entries@.len() ==> entries@[i].0 == *all[i].0 && entries@[i].1 == *all[i].1,
        {
            let (id, snapshot) = pair;
            entries.push((*id, snapshot.clone()));
        }
        proof {
            assert forall|i: int| 0 <= i < entries@.len() implies self.stored().contains_key(
                #[trigger] entries@[i].0,
            ) && self.stored()[entries@[i].0] == entries@[i].1 by {
                assert(self.snapshots@.contains_key(*all[i].0));
                assert(self.snapshots@[*all[i].0] == *all[i].1);
            }
            assert forall|id: u64| #[trigger] self.stored().contains_key(id) implies exists|i: int|
                0 <= i < entries@.len() && #[trigger] entries@[i].0 == id by {
                assert(all.contains((&id, &self.snapshots@[id])));
                let i = choose|i: int| 0 <= i < all.len() && all[i] == (&id, &self.snapshots@[id]);
                assert(entries@[i].0 == id);
            }
        }
        entries
    }
}

impl Default for HashMapRepository {
    fn default() -> (repository: Self)
        ensures
            repository.stored() == Map::<u64, String>::empty(),
            repository.spec_next_id() == 0,
    {
        Self::new()
    }
}

} // verus!
