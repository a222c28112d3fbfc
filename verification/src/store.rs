//! A keyed store of records, the in-memory catalog that the server keeps of its
//! datasets and of its maps.

use vstd::prelude::*;
use std::collections::HashMap;

verus! {

broadcast use vstd::std_specs::hash::group_hash_axioms;

/// Records keyed by their 128-bit id.
pub struct Store<V> {
    items: HashMap<u128, V>,
}

impl<V> View for Store<V> {
    type V = Map<u128, V>;

    closed spec fn view(&self) -> Map<u128, V> {
        self.items@
    }
}

/// `entries` lists each record of `m` exactly once, with its id.
pub open spec fn lists_exactly<V>(m: Map<u128, V>, entries: Seq<(u128, &V)>) -> bool {
    &&& entries.len() == m.dom().len()
    &&& forall|i: int, j: int|
        0 <= i < entries.len() && 0 <= j < entries.len() && i != j ==> #[trigger] entries[i].0
            != #[trigger] entries[j].0
    &&& forall|i: int|
        0 <= i < entries.len() ==> m.contains_key(#[trigger] entries[i].0) && *entries[i].1
            == m[entries[i].0]
    &&& forall|k: u128| #[trigger]
        m.contains_key(k) ==> exists|i: int| 0 <= i < entries.len() && #[trigger] entries[i].0 == k
}

impl<V> Store<V> {
    /// An empty store.
    pub fn new() -> (s: Self)
        ensures
            s@ == Map::<u128, V>::empty(),
    {
        Store { items: HashMap::new() }
    }

    /// The number of records.
    pub fn len(&self) -> (n: usize)
        ensures
            n == self@.dom().len(),
    {
        self.items.len()
    }

    /// Stores `v` under `id`, replacing any record held there.
    pub fn insert(&mut self, id: u128, v: V)
        ensures
            final(self)@ == old(self)@.insert(id, v),
    {
        self.items.insert(id, v);
    }

    /// The record stored under `id`, if any.
    pub fn get(&self, id: u128) -> (r: Option<&V>)
        ensures
            match r {
                Some(v) => self@.contains_key(id) && *v == self@[id],
                None => !self@.contains_key(id),
            },
    {
        self.items.get(&id)
    }

    /// Takes the record stored under `id` out of the store, if any.
    pub fn remove(&mut self, id: u128) -> (r: Option<V>)
        ensures
            final(self)@ == old(self)@.remove(id),
            match r {
                Some(v) => old(self)@.contains_key(id) && v == old(self)@[id],
                None => !old(self)@.contains_key(id),
            },
    {
        self.items.remove(&id)
    }

    /// Every record with its id, each exactly once, in no particular order.
    pub fn entries(&self) -> (r: Vec<(u128, &V)>)
        ensures
            lists_exactly(self@, r@),
    {
        let mut r: Vec<(u128, &V)> = Vec::new();
        let ghost m = self.items@;
        let ghost all = vstd::std_specs::iter::IteratorSpec::remaining(
            &vstd::std_specs::hash::spec_hash_map_iter(&self.items),
        );
        for kv in it: self.items.iter()
            invariant
                self.items@ == m,
                it.seq() == all,
                all.len() == m.dom().len(),
                all.no_duplicates(),
                forall|i: int|
                    #![trigger all[i]]
                    0 <= i < all.len() ==> m.contains_key(*all[i].0) && m[*all[i].0] == *all[i].1,
                forall|k: u128| #[trigger] m.contains_key(k) ==> all.contains((&k, &m[k])),
                r@.len() == it.index(),
                forall|i: int|
                    #![trigger r@[i]]
                    0 <= i < r@.len() ==> r@[i].0 == *all[i].0 && r@[i].1 == all[i].1,
        {
            let (k, v) = kv;
            r.push((*k, v));
        }
        assert(r@.len() == all.len());
        proof {
            assert forall|i: int, j: int|
                0 <= i < r@.len() && 0 <= j < r@.len() && i != j implies #[trigger] r@[i].0
                != #[trigger] r@[j].0 by {
                if r@[i].0 == r@[j].0 {
                    assert(all[i] == all[j]);
                }
            }
            assert forall|k: u128| #[trigger] m.contains_key(k) implies exists|i: int|
                0 <= i < r@.len() && #[trigger] r@[i].0 == k by {
                assert(all.contains((&k, &m[k])));
                let i = choose|i: int| 0 <= i < all.len() && all[i] == (&k, &m[k]);
                assert(r@[i].0 == k);
            }
            assert forall|i: int| 0 <= i < r@.len() implies m.contains_key(#[trigger] r@[i].0)
                && *r@[i].1 == m[r@[i].0] by {
                assert(all[i] == all[i]);
            }
        }
        r
    }
}

} // verus!
