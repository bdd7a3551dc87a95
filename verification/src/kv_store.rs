//! A map from one key to a value, where an absent key can be read as a
//! value that the reader names.

use std::collections::HashMap;
use std::hash::Hash;
use vstd::prelude::*;
use vstd::std_specs::hash::obeys_key_model;

verus! {

broadcast use vstd::std_specs::hash::group_hash_axioms;

/// A single-key store.
#[derive(Debug, PartialEq, Eq)]
pub struct KeyValueStore<K: Eq + Hash, V> {
    entries: HashMap<K, V>,
}

impl<K: Eq + Hash, V> KeyValueStore<K, V> {
    /// The store as a map from keys to values.
    pub closed spec fn view(&self) -> Map<K, V> {
        self.entries@
    }

    /// The key type hashes and compares as a hash table needs it to. The
    /// axioms of `vstd::std_specs::hash` state this of the integer types.
    pub open spec fn keys_hashable() -> bool {
        obeys_key_model::<K>()
    }

    /// An empty store.
    pub fn new() -> (s: Self)
        ensures
            s@ == Map::<K, V>::empty(),
    {
        KeyValueStore { entries: HashMap::new() }
    }

    /// Whether a value stands under the key.
    pub fn contains(&self, k: &K) -> (b: bool)
        requires
            Self::keys_hashable(),
        ensures
            b == self@.contains_key(*k),
    {
        self.entries.contains_key(k)
    }

    /// The value under the key, if there is one.
    pub fn get(&self, k: &K) -> (r: Option<&V>)
        requires
            Self::keys_hashable(),
        ensures
            r.is_some() == self@.contains_key(*k),
            r.is_some() ==> *r.unwrap() == self@[*k],
    {
        self.entries.get(k)
    }

    /// The value under the key, and `default` where there is none.
    pub fn get_or(&self, k: &K, default: V) -> (v: V) where V: Copy
        requires
            Self::keys_hashable(),
        ensures
            v == if self@.contains_key(*k) {
                self@[*k]
            } else {
                default
            },
    {
        match self.entries.get(k) {
            Some(v) => *v,
            None => default,
        }
    }

    /// Puts the value under the key and hands back the value that stood
    /// there before, if there was one.
    pub fn put(&mut self, k: K, v: V) -> (former: Option<V>)
        requires
            Self::keys_hashable(),
        ensures
            final(self)@ == old(self)@.insert(k, v),
            former.is_some() == old(self)@.contains_key(k),
            former.is_some() ==> former.unwrap() == old(self)@[k],
    {
        self.entries.insert(k, v)
    }

    /// Deletes the entry under the key and hands back its value; a store
    /// without such an entry stays as it is.
    pub fn remove(&mut self, k: &K) -> (r: Option<V>)
        requires
            Self::keys_hashable(),
        ensures
            final(self)@ == old(self)@.remove(*k),
            r.is_some() == old(self)@.contains_key(*k),
            r.is_some() ==> r.unwrap() == old(self)@[*k],
    {
        self.entries.remove(k)
    }
}

impl<K: Eq + Hash + Clone, V: Clone> Clone for KeyValueStore<K, V> {
    /// A second store with the same entries.
    fn clone(&self) -> (copy: Self)
        ensures
            copy@ == self@,
    {
        KeyValueStore { entries: self.entries.clone() }
    }
}

} // verus!
