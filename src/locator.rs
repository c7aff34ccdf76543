use vstd::prelude::*;

use std::collections::hash_map::Entry;
use std::collections::HashMap;

verus! {

broadcast use {
    vstd::std_specs::hash::group_hash_axioms,
    vstd::std_specs::hash::axiom_has_resolved_entry,
};

/// A registry of shared services: at most one object per key, where a key
/// stands for the type of the object stored under it.
pub struct Locator<V> {
    objects: HashMap<u64, V>,
}

impl<V> View for Locator<V> {
    type V = Map<u64, V>;

    closed spec fn view(&self) -> Map<u64, V> {
        self.objects@
    }
}

impl<V> Locator<V> {
    pub fn new() -> (r: Self)
        ensures
            r@ == Map::<u64, V>::empty(),
    {
        Locator { objects: HashMap::new() }
    }

    /// Stores `object` under `key`, replacing what was stored there.
    pub fn add(&mut self, key: u64, object: V)
        ensures
            final(self)@ == old(self)@.insert(key, object),
    {
        self.objects.insert(key, object);
    }

    /// The object stored under `key`, if any.
    pub fn find(&self, key: u64) -> (r: Option<&V>)
        ensures
            match r {
                Some(v) => self@.contains_key(key) && *v == self@[key],
                None => !self@.contains_key(key),
            },
    {
        self.objects.get(&key)
    }

    /// The object stored under `key`, if any, for in-place change.
    pub fn find_mut(&mut self, key: u64) -> (r: Option<&mut V>)
        ensures
            match r {
                Some(v) => old(self)@.contains_key(key) && *v == old(self)@[key]
                    && final(self)@ == old(self)@.insert(key, *final(v)),
                None => !old(self)@.contains_key(key) && final(self)@ == old(self)@,
            },
    {
        match self.objects.entry(key) {
            Entry::Occupied(o) => Some(o.into_mut()),
            Entry::Vacant(_) => None,
        }
    }
}

} // verus!
