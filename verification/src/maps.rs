//! Insertion-ordered maps of the `indexmap` crate, as the library uses them.
//!
//! What a map holds is named by a spec function per key and value type: the list of
//! its entries in insertion order. Each wrapper below states what the `indexmap`
//! method does to that list and what it returns.
use indexmap::IndexMap;
use vstd::prelude::*;

use crate::json::{Json, JsonV};
use crate::keyed::{entries_get, entries_insert, first_key_at, has_key};
use crate::workflow::TaskDefinition;

verus! {

#[verifier::external_type_specification]
#[verifier::external_body]
#[verifier::reject_recursive_types(K)]
#[verifier::reject_recursive_types(V)]
#[verifier::reject_recursive_types(S)]
pub struct ExIndexMap<K, V, S>(IndexMap<K, V, S>);

/// The entries of a task map, in insertion order.
pub uninterp spec fn task_entries(m: IndexMap<String, TaskDefinition>) -> Seq<
    (Seq<char>, TaskDefinition),
>;

/// The entries of a name-to-position map, in insertion order.
pub uninterp spec fn position_entries(m: IndexMap<String, usize>) -> Seq<(Seq<char>, usize)>;

/// The entries of a name-to-value map, in insertion order, values by their view.
pub uninterp spec fn value_entries(m: IndexMap<String, Json>) -> Seq<(Seq<char>, JsonV)>;

/// `IndexMap::len`: the number of entries.
#[verifier::external_body]
pub(crate) fn task_map_len(m: &IndexMap<String, TaskDefinition>) -> (r: usize)
    ensures
        r == task_entries(*m).len(),
{
    m.len()
}

/// `IndexMap::get_index`: the entry at a position. Keys of an `IndexMap` are distinct, so
/// no earlier entry has the same key.
#[verifier::external_body]
pub(crate) fn task_map_get_index(m: &IndexMap<String, TaskDefinition>, i: usize) -> (r: Option<
    (&String, &TaskDefinition),
>)
    ensures
        r is Some == (i < task_entries(*m).len()),
        r matches Some(kv) ==> kv.0@ == task_entries(*m)[i as int].0 && *kv.1 == task_entries(
            *m,
        )[i as int].1,
        r matches Some(kv) ==> first_key_at(task_entries(*m), kv.0@, i as int),
{
    m.get_index(i)
}

/// `IndexMap::get`: the value of a key.
#[verifier::external_body]
pub(crate) fn task_map_get<'a>(m: &'a IndexMap<String, TaskDefinition>, key: &str) -> (r: Option<
    &'a TaskDefinition,
>)
    ensures
        r is Some == has_key(task_entries(*m), key@),
        r matches Some(v) ==> entries_get(task_entries(*m), key@) == Some(*v),
{
    m.get(key)
}

/// `IndexMap::new`: an empty map.
#[verifier::external_body]
pub(crate) fn position_map_new() -> (m: IndexMap<String, usize>)
    ensures
        position_entries(m) == Seq::<(Seq<char>, usize)>::empty(),
{
    IndexMap::new()
}

/// `IndexMap::insert`: an existing key keeps its place and takes the new value (the old
/// one is returned); a new key is appended last.
#[verifier::external_body]
pub(crate) fn position_map_insert(m: &mut IndexMap<String, usize>, key: String, value: usize) -> (r:
    Option<usize>)
    ensures
        position_entries(*final(m)) == entries_insert(position_entries(*old(m)), key@, value),
        r == entries_get(position_entries(*old(m)), key@),
{
    m.insert(key, value)
}

/// `IndexMap::get`: the value of a key.
#[verifier::external_body]
pub(crate) fn position_map_get(m: &IndexMap<String, usize>, key: &str) -> (r: Option<usize>)
    ensures
        r == entries_get(position_entries(*m), key@),
{
    m.get(key).copied()
}

/// `IndexMap::new`: an empty map.
#[verifier::external_body]
pub(crate) fn value_map_new() -> (m: IndexMap<String, Json>)
    ensures
        value_entries(m) == Seq::<(Seq<char>, JsonV)>::empty(),
{
    IndexMap::new()
}

/// `IndexMap::insert`: an existing key keeps its place and takes the new value (the old
/// one is dropped); a new key is appended last.
#[verifier::external_body]
pub(crate) fn value_map_insert(m: &mut IndexMap<String, Json>, key: String, value: Json)
    ensures
        value_entries(*final(m)) == entries_insert(value_entries(*old(m)), key@, value@),
{
    m.insert(key, value);
}

} // verus!
