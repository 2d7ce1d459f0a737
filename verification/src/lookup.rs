//! Finding the first entry with a given key in a sequence of keys.

use vstd::prelude::*;

verus! {

/// `i` is the first position of `keys` that holds `key`.
pub open spec fn is_first_at<K>(keys: Seq<K>, key: K, i: int) -> bool {
    &&& 0 <= i < keys.len()
    &&& keys[i] == key
    &&& forall|j: int| 0 <= j < i ==> keys[j] != key
}

/// The first position of `keys` that holds `key`, if any does.
pub open spec fn first_index<K>(keys: Seq<K>, key: K) -> Option<int> {
    if exists|i: int| is_first_at(keys, key, i) {
        Some(choose|i: int| is_first_at(keys, key, i))
    } else {
        None
    }
}

/// A position that holds the key, with no earlier one that does, is the
/// first index.
pub proof fn lemma_first_index_found<K>(keys: Seq<K>, key: K, i: int)
    requires
        is_first_at(keys, key, i),
    ensures
        first_index(keys, key) == Some(i),
{
    let c = choose|c: int| is_first_at(keys, key, c);
    assert(is_first_at(keys, key, c));
    if c < i {
        assert(keys[c] != key);
    } else if i < c {
        assert(keys[i] != key);
    }
}

/// Where no position holds the key there is no first index.
pub proof fn lemma_first_index_none<K>(keys: Seq<K>, key: K)
    requires
        forall|j: int| 0 <= j < keys.len() ==> keys[j] != key,
    ensures
        first_index(keys, key) is None,
{
}

/// What a first index says of the keys.
pub proof fn lemma_first_index_is_first<K>(keys: Seq<K>, key: K)
    ensures
        first_index(keys, key) matches Some(i) ==> is_first_at(keys, key, i),
        first_index(keys, key) is None ==> forall|j: int| 0 <= j < keys.len() ==> keys[j] != key,
{
    if first_index(keys, key) is None {
        assert forall|j: int| 0 <= j < keys.len() implies keys[j] != key by {
            if keys[j] == key {
                lemma_has_first(keys, key, j);
            }
        }
    }
}

/// If some position up to `j` holds the key, some position is the first.
proof fn lemma_has_first<K>(keys: Seq<K>, key: K, j: int)
    requires
        0 <= j < keys.len(),
        keys[j] == key,
    ensures
        exists|i: int| is_first_at(keys, key, i),
    decreases j,
{
    if exists|k: int| 0 <= k < j && keys[k] == key {
        let k = choose|k: int| 0 <= k < j && keys[k] == key;
        lemma_has_first(keys, key, k);
    } else {
        assert(is_first_at(keys, key, j));
    }
}

} // verus!
