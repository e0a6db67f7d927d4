//! An insertion-ordered index from names to slots, kept in an
//! `indexmap::IndexMap`. The map itself is opaque to the verifier: what it
//! holds is named by `index_entries`, and each operation used here states its
//! effect on that sequence.

use vstd::prelude::*;
use indexmap::IndexMap;
use crate::search::{first_index, lemma_first_index};

verus! {

/// `indexmap::IndexMap`, as a type whose inside the verifier does not see.
#[verifier::external_type_specification]
#[verifier::external_body]
#[verifier::reject_recursive_types(K)]
#[verifier::reject_recursive_types(V)]
#[verifier::reject_recursive_types(S)]
pub struct ExIndexMap<K, V, S>(IndexMap<K, V, S>);

/// The key-value pairs that `m` holds, in the map's order, each key as its
/// characters.
pub uninterp spec fn index_entries(m: IndexMap<String, usize>) -> Seq<(Seq<char>, usize)>;

/// The condition of having the key `key`, on entries.
pub open spec fn entry_has_key(key: Seq<char>) -> spec_fn((Seq<char>, usize)) -> bool {
    |e: (Seq<char>, usize)| e.0 == key
}

/// The position of `key` among `entries`, or `entries.len()` when it is absent.
pub open spec fn key_index(entries: Seq<(Seq<char>, usize)>, key: Seq<char>) -> int {
    first_index(entries, entry_has_key(key))
}

/// The slot stored under `key`, if `key` is present.
pub open spec fn slot_of(entries: Seq<(Seq<char>, usize)>, key: Seq<char>) -> Option<usize> {
    if key_index(entries, key) < entries.len() {
        Some(entries[key_index(entries, key)].1)
    } else {
        None
    }
}

/// No key occurs twice in `entries`.
pub open spec fn distinct_keys(entries: Seq<(Seq<char>, usize)>) -> bool {
    forall|i: int, j: int|
        0 <= i < j < entries.len() ==> (#[trigger] entries[i]).0 != (#[trigger] entries[j]).0
}

/// `key_index` is within bounds, names an entry with that key when it lies
/// inside, and no earlier entry has the key.
pub proof fn lemma_key_index(entries: Seq<(Seq<char>, usize)>, key: Seq<char>)
    ensures
        0 <= key_index(entries, key) <= entries.len(),
        key_index(entries, key) < entries.len() ==> entries[key_index(entries, key)].0 == key,
        forall|k: int| 0 <= k < key_index(entries, key) ==> (#[trigger] entries[k]).0 != key,
{
    lemma_first_index(entries, entry_has_key(key));
}

/// `IndexMap::new`: the new map holds nothing.
#[verifier::external_body]
pub(crate) fn index_new() -> (m: IndexMap<String, usize>)
    ensures
        index_entries(m) == Seq::<(Seq<char>, usize)>::empty(),
{
    IndexMap::new()
}

/// `IndexMap::insert`: a key that is present keeps its place and takes the
/// new value, and the value it had is returned; a key that is absent is added
/// with the value behind all others, and nothing is returned.
#[verifier::external_body]
pub(crate) fn index_insert(m: &mut IndexMap<String, usize>, key: String, value: usize) -> (previous:
    Option<usize>)
    ensures
        previous == slot_of(index_entries(*old(m)), key@),
        index_entries(*final(m)) == if key_index(index_entries(*old(m)), key@) < index_entries(
            *old(m),
        ).len() {
            index_entries(*old(m)).update(key_index(index_entries(*old(m)), key@), (key@, value))
        } else {
            index_entries(*old(m)).push((key@, value))
        },
{
    m.insert(key, value)
}

/// `IndexMap::get`: the value stored under `key`, if `key` is present.
#[verifier::external_body]
pub(crate) fn index_get(m: &IndexMap<String, usize>, key: &str) -> (value: Option<usize>)
    ensures
        value == slot_of(index_entries(*m), key@),
{
    m.get(key).copied()
}

/// `IndexMap::contains_key`: whether `key` is present.
#[verifier::external_body]
pub(crate) fn index_contains_key(m: &IndexMap<String, usize>, key: &str) -> (present: bool)
    ensures
        present == (key_index(index_entries(*m), key@) < index_entries(*m).len()),
{
    m.contains_key(key)
}

/// `IndexMap::get_index_of`: the position of `key` in the map's order, if
/// `key` is present.
#[verifier::external_body]
pub(crate) fn index_get_index_of(m: &IndexMap<String, usize>, key: &str) -> (position: Option<
    usize,
>)
    ensures
        match position {
            Some(at) => at == key_index(index_entries(*m), key@) && at < index_entries(*m).len(),
            None => key_index(index_entries(*m), key@) == index_entries(*m).len(),
        },
{
    m.get_index_of(key)
}

} // verus!
