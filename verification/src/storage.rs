//! Key/value storage behind a small trait, and its `HashMap` implementation.

use std::collections::HashMap;
use std::hash::Hash;
use vstd::prelude::*;

verus! {

/// A call that changes a store, as the store's log records it.
pub enum StorageCall<K> {
    Insert(K),
    Remove(K),
}

/// A key/value store. Users of the library may bring their own.
///
/// `contents` is what the store holds, as a map from keys to values, and
/// `log` is the sequence of the calls that changed it, `set` (an `Insert`) and `remove`,
/// oldest first. A store that is verified defines both and keeps to the
/// contracts below over them; the empty defaults are there only so that a
/// store written outside Verus, which cannot name these models, still
/// compiles, and such a store is not held to the contracts.
pub trait Storage<K, V> {
    closed spec fn contents(&self) -> Map<K, V> {
        Map::empty()
    }

    closed spec fn log(&self) -> Seq<StorageCall<K>> {
        Seq::empty()
    }

    /// Stores `val` under `key`, replacing what was there.
    fn set(&mut self, key: K, val: V)
        ensures
            final(self).contents() == old(self).contents().insert(key, val),
            final(self).log() == old(self).log().push(StorageCall::Insert(key)),
    ;

    /// The value under `key`, if any.
    fn get(&self, key: &K) -> (r: Option<&V>)
        ensures
            match r {
                Some(v) => self.contents().contains_key(*key) && *v == self.contents()[*key],
                None => !self.contents().contains_key(*key),
            },
    ;

    /// Takes the value under `key` out of the store, if any.
    fn remove(&mut self, key: &K) -> (r: Option<V>)
        ensures
            final(self).contents() == old(self).contents().remove(*key),
            final(self).log() == old(self).log().push(StorageCall::Remove(*key)),
            match r {
                Some(v) => old(self).contents().contains_key(*key) && v == old(self).contents()[*key],
                None => !old(self).contents().contains_key(*key),
            },
    ;
}

/// Storage in a `std::collections::HashMap`.
///
/// Its key type must hash and compare consistently with spec equality
/// (`obeys_key_model`), as vstd states of the primitive integer types; the
/// map then behaves as a mathematical map of its keys.
pub struct HashMapStorage<K, V>(HashMap<K, V>, Ghost<Seq<StorageCall<K>>>);

impl<K, V> HashMapStorage<K, V> {
    #[verifier::type_invariant]
    spec fn keys_obey_model(self) -> bool {
        vstd::std_specs::hash::obeys_key_model::<K>()
    }

    pub fn new() -> (s: Self)
        requires
            vstd::std_specs::hash::obeys_key_model::<K>(),
        ensures
            s.map() == Map::<K, V>::empty(),
            s.calls() == Seq::<StorageCall<K>>::empty(),
    {
        Self(HashMap::new(), Ghost(Seq::empty()))
    }

    /// What the storage holds.
    pub closed spec fn map(self) -> Map<K, V> {
        self.0@
    }

    /// The calls that changed the storage since it was made.
    pub closed spec fn calls(self) -> Seq<StorageCall<K>> {
        self.1@
    }
}

impl<K, V> Storage<K, V> for HashMapStorage<K, V> where K: Eq + Hash {
    open spec fn contents(&self) -> Map<K, V> {
        self.map()
    }

    open spec fn log(&self) -> Seq<StorageCall<K>> {
        self.calls()
    }

    fn set(&mut self, key: K, val: V) {
        proof {
            use_type_invariant(&*self);
        }
        broadcast use vstd::std_specs::hash::group_hash_axioms;

        let ghost k = key;
        let mut m = HashMap::new();
        std::mem::swap(&mut m, &mut self.0);
        m.insert(key, val);
        std::mem::swap(&mut m, &mut self.0);
        self.1 = Ghost(self.1@.push(StorageCall::Insert(k)));
    }

    fn get(&self, key: &K) -> (r: Option<&V>) {
        proof {
            use_type_invariant(&*self);
        }
        broadcast use vstd::std_specs::hash::group_hash_axioms;

        self.0.get(key)
    }

    fn remove(&mut self, key: &K) -> (r: Option<V>) {
        proof {
            use_type_invariant(&*self);
        }
        broadcast use vstd::std_specs::hash::group_hash_axioms;

        let mut m = HashMap::new();
        std::mem::swap(&mut m, &mut self.0);
        let r = m.remove(key);
        std::mem::swap(&mut m, &mut self.0);
        self.1 = Ghost(self.1@.push(StorageCall::Remove(*key)));
        r
    }
}

} // verus!
