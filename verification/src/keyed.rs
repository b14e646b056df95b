//! Entry lists keyed by strings: the first entry with a key holds its value.
use vstd::prelude::*;

verus! {

/// `k` is the first entry whose key is `key`.
pub open spec fn first_key_at<V>(e: Seq<(Seq<char>, V)>, key: Seq<char>, k: int) -> bool {
    &&& 0 <= k < e.len()
    &&& e[k].0 == key
    &&& forall|j: int| 0 <= j < k ==> e[j].0 != key
}

pub open spec fn has_key<V>(e: Seq<(Seq<char>, V)>, key: Seq<char>) -> bool {
    exists|k: int| 0 <= k < e.len() && #[trigger] e[k].0 == key
}

/// The index of the first entry with key `key`.
pub open spec fn key_index<V>(e: Seq<(Seq<char>, V)>, key: Seq<char>) -> int {
    choose|k: int| first_key_at(e, key, k)
}

/// What an object maps `key` to (its first entry with that key).
pub open spec fn entries_get<V>(e: Seq<(Seq<char>, V)>, key: Seq<char>) -> Option<V> {
    if has_key(e, key) {
        Some(e[key_index(e, key)].1)
    } else {
        None
    }
}

/// The entries after `key` is set to `value`: the first entry with that key is replaced
/// in place, or a new entry is appended.
pub open spec fn entries_insert<V>(e: Seq<(Seq<char>, V)>, key: Seq<char>, value: V) -> Seq<(Seq<char>, V)> {
    if has_key(e, key) {
        e.update(key_index(e, key), (key, value))
    } else {
        e.push((key, value))
    }
}

pub proof fn lemma_first_key<V>(e: Seq<(Seq<char>, V)>, key: Seq<char>, k: int)
    requires
        first_key_at(e, key, k),
    ensures
        has_key(e, key),
        key_index(e, key) == k,
        entries_get(e, key) == Some(e[k].1),
{
    assert(e[k].0 == key);
    let c = key_index(e, key);
    assert(first_key_at(e, key, c));
    if c < k {
        assert(e[c].0 != key);
    }
    if k < c {
        assert(e[k].0 != key);
    }
}

/// Reading a key back after setting it gives the value that was set.
pub proof fn law_get_after_insert<V>(e: Seq<(Seq<char>, V)>, key: Seq<char>, value: V)
    ensures
        entries_get(entries_insert(e, key, value), key) == Some(value),
{
    let e2 = entries_insert(e, key, value);
    if has_key(e, key) {
        let k = key_index(e, key);
        lemma_first_key_exists(e, key);
        assert(first_key_at(e2, key, k));
        lemma_first_key(e2, key, k);
    } else {
        let k = e.len() as int;
        assert forall|j: int| 0 <= j < k implies e2[j].0 != key by {
            if e2[j].0 == key {
                assert(e[j].0 == key);
            }
        }
        lemma_first_key(e2, key, k);
    }
}

/// Setting a key leaves every other key's value as it was.
pub proof fn law_insert_keeps_other_keys<V>(
    e: Seq<(Seq<char>, V)>,
    key: Seq<char>,
    value: V,
    other: Seq<char>,
)
    requires
        other != key,
    ensures
        entries_get(entries_insert(e, key, value), other) == entries_get(e, other),
{
    let e2 = entries_insert(e, key, value);
    if has_key(e, key) {
        lemma_first_key_exists(e, key);
    }
    assert forall|j: int| 0 <= j < e.len() implies (#[trigger] e2[j]).0 == other <==> e[j].0
        == other by {}
    if has_key(e, other) {
        lemma_first_key_exists(e, other);
        let k = key_index(e, other);
        assert(e2[k].0 == other);
        assert(first_key_at(e2, other, k));
        lemma_first_key(e2, other, k);
    } else {
        if has_key(e2, other) {
            let k = choose|k: int| 0 <= k < e2.len() && #[trigger] e2[k].0 == other;
            if k < e.len() {
                assert(e2[k].0 == other);
                assert(e[k].0 == other);
            }
        }
    }
}

pub proof fn lemma_first_key_exists<V>(e: Seq<(Seq<char>, V)>, key: Seq<char>)
    requires
        has_key(e, key),
    ensures
        first_key_at(e, key, key_index(e, key)),
{
    let k0 = choose|k: int| 0 <= k < e.len() && #[trigger] e[k].0 == key;
    lemma_min_key_index(e, key, k0);
}

proof fn lemma_min_key_index<V>(e: Seq<(Seq<char>, V)>, key: Seq<char>, k0: int)
    requires
        0 <= k0 < e.len(),
        e[k0].0 == key,
    ensures
        exists|k: int| first_key_at(e, key, k),
    decreases k0,
{
    if forall|j: int| 0 <= j < k0 ==> e[j].0 != key {
        assert(first_key_at(e, key, k0));
    } else {
        let j = choose|j: int| 0 <= j < k0 && e[j].0 != key == false;
        lemma_min_key_index(e, key, j);
    }
}


} // verus!
