//! Building a `BTreeMap` from a list of key/value pairs.

use std::collections::BTreeMap;
use vstd::laws_cmp::obeys_cmp;
use vstd::prelude::*;

verus! {

/// The map that inserting `entries` one after the other gives: the last
/// pair with a given key wins.
pub open spec fn entries_map<K, V>(entries: Seq<(K, V)>) -> Map<K, V>
    decreases entries.len(),
{
    if entries.len() == 0 {
        Map::empty()
    } else {
        entries_map(entries.drop_last()).insert(entries.last().0, entries.last().1)
    }
}

/// A later pair overwrites an earlier one: the value under a key is that of
/// the last pair with that key.
pub proof fn law_last_pair_wins<K, V>(entries: Seq<(K, V)>, i: int)
    requires
        0 <= i < entries.len(),
        forall|j: int| i < j < entries.len() ==> entries[j].0 != entries[i].0,
    ensures
        entries_map(entries).contains_key(entries[i].0),
        entries_map(entries)[entries[i].0] == entries[i].1,
    decreases entries.len(),
{
    if i < entries.len() - 1 {
        law_last_pair_wins(entries.drop_last(), i);
    }
}

/// The keys of the map are exactly the keys of the pairs.
pub proof fn law_keys_are_given_keys<K, V>(entries: Seq<(K, V)>, k: K)
    ensures
        entries_map(entries).contains_key(k) <==> exists|i: int|
            0 <= i < entries.len() && #[trigger] entries[i].0 == k,
    decreases entries.len(),
{
    if entries.len() > 0 {
        let init = entries.drop_last();
        law_keys_are_given_keys(init, k);
        if entries_map(entries).contains_key(k) {
            if k != entries.last().0 {
                let i = choose|i: int| 0 <= i < init.len() && #[trigger] init[i].0 == k;
                assert(entries[i].0 == k);
            } else {
                assert(entries[entries.len() - 1].0 == k);
            }
        } else {
            assert forall|i: int| 0 <= i < entries.len() implies #[trigger] entries[i].0 != k by {
                if i < entries.len() - 1 {
                    assert(init[i] == entries[i]);
                }
            }
        }
    }
}

/// The key type's `Ord` is a total order consistent with spec equality.
pub open spec fn keys_totally_ordered<K: Ord>() -> bool {
    obeys_cmp::<K>()
}

/// Builds a sorted map from `entries`, inserting them in order, so that a
/// later pair overwrites an earlier one with the same key. No pairs give an
/// empty map.
///
/// What the map holds is stated for key types whose `Ord` is a total order
/// consistent with spec equality (`keys_totally_ordered`), as vstd states of the
/// primitive types; that is what `BTreeMap::insert` is specified under.
pub fn btreemap<K: Ord, V>(entries: Vec<(K, V)>) -> (m: BTreeMap<K, V>)
    ensures
        keys_totally_ordered::<K>() ==> m@ == entries_map(entries@),
{
    let ghost all = entries@;
    let mut map = BTreeMap::new();
    for kv in it: entries
        invariant
            all == it.seq(),
            keys_totally_ordered::<K>() ==> map@ == entries_map(all.take(it.index() as int)),
    {
        proof {
            assert(all.take(it.index() + 1).drop_last() =~= all.take(it.index() as int));
        }
        let (k, v) = kv;
        map.insert(k, v);
    }
    proof {
        assert(all.take(all.len() as int) =~= all);
    }
    map
}

} // verus!
