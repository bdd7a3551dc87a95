//! A map keyed by an ordered pair of keys, with point operations on the exact
//! pair and a bulk removal of every entry under one primary key.

use std::collections::HashMap;
use std::hash::Hash;
use vstd::prelude::*;
use vstd::relations::injective_on;
use vstd::set_lib::lemma_map_size;
use vstd::std_specs::hash::obeys_key_model;

verus! {

broadcast use vstd::std_specs::hash::group_hash_axioms;

/// The key pairs of `m` whose primary key is `k1`.
pub open spec fn keys_under<K1, K2, V>(m: Map<(K1, K2), V>, k1: K1) -> Set<(K1, K2)> {
    Set::new(|k: (K1, K2)| m.contains_key(k) && k.0 == k1)
}

/// `m` without any entry whose primary key is `k1`; every other entry as it was.
pub open spec fn without_primary<K1, K2, V>(m: Map<(K1, K2), V>, k1: K1) -> Map<(K1, K2), V> {
    Map::new(|k: (K1, K2)| m.contains_key(k) && k.0 != k1, |k: (K1, K2)| m[k])
}

/// A two-level store: the primary key selects a bucket, the secondary key an
/// entry inside it. Removing a whole bucket costs no more than the bucket,
/// however many entries the other buckets hold.
#[derive(Debug, PartialEq, Eq)]
pub struct DoubleKeyStore<K1: Eq + Hash, K2: Eq + Hash, V> {
    buckets: HashMap<K1, HashMap<K2, V>>,
}

impl<K1: Eq + Hash, K2: Eq + Hash, V> DoubleKeyStore<K1, K2, V> {
    /// The store as a map from key pairs to values.
    pub closed spec fn view(&self) -> Map<(K1, K2), V> {
        Map::new(
            |k: (K1, K2)| self.buckets@.contains_key(k.0) && self.buckets@[k.0]@.contains_key(k.1),
            |k: (K1, K2)| self.buckets@[k.0]@[k.1],
        )
    }

    /// Both key types hash and compare as a hash table needs them to. The
    /// axioms of `vstd::std_specs::hash` state this of the integer types.
    pub open spec fn keys_hashable() -> bool {
        obeys_key_model::<K1>() && obeys_key_model::<K2>()
    }

    /// An empty store.
    pub fn new() -> (s: Self)
        ensures
            s@ == Map::<(K1, K2), V>::empty(),
    {
        let s = DoubleKeyStore { buckets: HashMap::new() };
        assert(s@ =~= Map::<(K1, K2), V>::empty());
        s
    }

    /// Whether an entry stands under the exact pair.
    pub fn contains(&self, k1: &K1, k2: &K2) -> (b: bool)
        requires
            Self::keys_hashable(),
        ensures
            b == self@.contains_key((*k1, *k2)),
    {
        match self.buckets.get(k1) {
            Some(bucket) => bucket.contains_key(k2),
            None => false,
        }
    }

    /// The value under the exact pair, if there is one.
    pub fn get(&self, k1: &K1, k2: &K2) -> (r: Option<&V>)
        requires
            Self::keys_hashable(),
        ensures
            r.is_some() == self@.contains_key((*k1, *k2)),
            r.is_some() ==> *r.unwrap() == self@[(*k1, *k2)],
    {
        match self.buckets.get(k1) {
            Some(bucket) => bucket.get(k2),
            None => None,
        }
    }

    /// The value under the exact pair, and `default` where there is none.
    pub fn get_or(&self, k1: &K1, k2: &K2, default: V) -> (v: V) where V: Copy
        requires
            Self::keys_hashable(),
        ensures
            v == if self@.contains_key((*k1, *k2)) {
                self@[(*k1, *k2)]
            } else {
                default
            },
    {
        match self.get(k1, k2) {
            Some(v) => *v,
            None => default,
        }
    }

    /// Puts the value under the exact pair, over any value that stood there.
    pub fn put(&mut self, k1: K1, k2: K2, v: V)
        requires
            Self::keys_hashable(),
        ensures
            final(self)@ == old(self)@.insert((k1, k2), v),
    {
        let mut bucket = match self.buckets.remove(&k1) {
            Some(b) => b,
            None => HashMap::new(),
        };
        bucket.insert(k2, v);
        self.buckets.insert(k1, bucket);
        assert(self@ =~= old(self)@.insert((k1, k2), v));
    }

    /// Deletes the entry under the exact pair and hands back its value; a
    /// store without such an entry stays as it is.
    pub fn remove(&mut self, k1: K1, k2: &K2) -> (r: Option<V>)
        requires
            Self::keys_hashable(),
        ensures
            final(self)@ == old(self)@.remove((k1, *k2)),
            r.is_some() == old(self)@.contains_key((k1, *k2)),
            r.is_some() ==> r.unwrap() == old(self)@[(k1, *k2)],
    {
        match self.buckets.remove(&k1) {
            Some(bucket) => {
                let mut bucket = bucket;
                let r = bucket.remove(k2);
                if bucket.len() > 0 {
                    self.buckets.insert(k1, bucket);
                }
                assert(self@ =~= old(self)@.remove((k1, *k2)));
                r
            },
            None => {
                assert(self@ =~= old(self)@.remove((k1, *k2)));
                None
            },
        }
    }

    /// Deletes every entry whose primary key is `k1`, whatever its secondary
    /// key, and says how many there were. One bucket leaves the table: the
    /// entries under other primary keys are neither read nor moved.
    pub fn remove_all_with_primary(&mut self, k1: &K1) -> (count: usize)
        requires
            Self::keys_hashable(),
        ensures
            final(self)@ == without_primary(old(self)@, *k1),
            keys_under(old(self)@, *k1).finite(),
            count == keys_under(old(self)@, *k1).len(),
    {
        match self.buckets.remove(k1) {
            Some(bucket) => {
                proof {
                    let pair = |k2: K2| (*k1, k2);
                    assert(injective_on(pair, bucket@.dom()));
                    assert(bucket@.dom().map(pair) =~= keys_under(old(self)@, *k1));
                    lemma_map_size(bucket@.dom(), keys_under(old(self)@, *k1), pair);
                    assert(self@ =~= without_primary(old(self)@, *k1));
                }
                bucket.len()
            },
            None => {
                proof {
                    assert(keys_under(old(self)@, *k1) =~= Set::<(K1, K2)>::empty());
                    assert(self@ =~= without_primary(old(self)@, *k1));
                }
                0
            },
        }
    }
}

impl<K1: Eq + Hash + Clone, K2: Eq + Hash + Clone, V: Clone> Clone for DoubleKeyStore<K1, K2, V> {
    /// A second store with the same entries.
    fn clone(&self) -> (copy: Self)
        ensures
            copy@ == self@,
    {
        DoubleKeyStore { buckets: self.buckets.clone() }
    }
}

} // verus!
