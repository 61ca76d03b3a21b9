//! Ordered string-to-string maps (`indexmap::IndexMap<String, String>`) as the
//! configuration uses them for `inputs`, `environment` and `alias` tables.
//!
//! The map keeps insertion order; inserting an existing key replaces its
//! value in place. Its contents are modelled as the sequence of
//! `(key, value)` entries in order.

use indexmap::IndexMap;
use std::collections::hash_map::RandomState;
use vstd::prelude::*;

verus! {

#[verifier::external_type_specification]
#[verifier::external_body]
#[verifier::reject_recursive_types(K)]
#[verifier::reject_recursive_types(V)]
#[verifier::reject_recursive_types(S)]
pub struct ExIndexMap<K, V, S>(IndexMap<K, V, S>);

/// The entries of an `IndexMap<String, String>`, in insertion order.
pub uninterp spec fn index_map_entries(m: IndexMap<String, String, RandomState>) -> Seq<(Seq<char>, Seq<char>)>;

/// Index of the entry with key `k`, if any.
pub open spec fn entry_index<V>(entries: Seq<(Seq<char>, V)>, k: Seq<char>) -> Option<int>
    decreases entries.len(),
{
    if entries.len() == 0 {
        None
    } else if entries[0].0 == k {
        Some(0)
    } else {
        match entry_index(entries.drop_first(), k) {
            Some(i) => Some(i + 1),
            None => None,
        }
    }
}

/// The value stored under `k`, if any.
pub open spec fn entry_lookup(entries: Seq<(Seq<char>, Seq<char>)>, k: Seq<char>) -> Option<Seq<char>> {
    match entry_index(entries, k) {
        Some(i) => Some(entries[i].1),
        None => None,
    }
}

/// The entries after inserting `(k, v)`: an existing key keeps its position
/// and takes the new value; a new key is appended.
pub open spec fn entries_insert<V>(
    entries: Seq<(Seq<char>, V)>,
    k: Seq<char>,
    v: V,
) -> Seq<(Seq<char>, V)> {
    match entry_index(entries, k) {
        Some(i) => entries.update(i, (k, v)),
        None => entries.push((k, v)),
    }
}

/// The keys of a list of entries.
pub open spec fn entry_keys(entries: Seq<(Seq<char>, Seq<char>)>) -> Seq<Seq<char>> {
    Seq::new(entries.len(), |i: int| entries[i].0)
}

pub proof fn lemma_entry_index_bounds<V>(entries: Seq<(Seq<char>, V)>, k: Seq<char>)
    ensures
        entry_index(entries, k) matches Some(i) ==> 0 <= i < entries.len() && entries[i].0 == k
            && forall|j: int| 0 <= j < i ==> entries[j].0 != k,
        entry_index(entries, k) is None ==> forall|j: int|
            0 <= j < entries.len() ==> entries[j].0 != k,
    decreases entries.len(),
{
    if entries.len() > 0 {
        lemma_entry_index_bounds(entries.drop_first(), k);
        if entries[0].0 != k {
            assert forall|j: int| 1 <= j < entries.len() implies entries[j] == entries.drop_first()[j - 1] by {}
        }
    }
}

/// The first position holding `k` is the one [`entry_index`] finds.
pub proof fn lemma_entry_index_is_first<V>(entries: Seq<(Seq<char>, V)>, k: Seq<char>, i: int)
    requires
        0 <= i < entries.len(),
        entries[i].0 == k,
        forall|j: int| 0 <= j < i ==> entries[j].0 != k,
    ensures
        entry_index(entries, k) == Some(i),
{
    lemma_entry_index_bounds(entries, k);
    match entry_index(entries, k) {
        Some(m) => {
            if m < i {
                assert(entries[m].0 != k);
            } else if i < m {
                assert(entries[i].0 != k);
            }
        },
        None => {
            assert(entries[i].0 != k);
        },
    }
}

/// After inserting `(k, v)`, `k` holds `v` and every other key holds what
/// it held before.
pub proof fn lemma_lookup_after_insert(entries: Seq<(Seq<char>, Seq<char>)>, k: Seq<char>, v: Seq<char>, other: Seq<char>)
    ensures
        entry_lookup(entries_insert(entries, k, v), k) == Some(v),
        other != k ==> entry_lookup(entries_insert(entries, k, v), other) == entry_lookup(entries, other),
{
    let after = entries_insert(entries, k, v);
    lemma_entry_index_bounds(entries, k);
    lemma_entry_index_bounds(entries, other);
    match entry_index(entries, k) {
        Some(i) => {
            lemma_entry_index_is_first(after, k, i);
            if other != k {
                match entry_index(entries, other) {
                    Some(m) => lemma_entry_index_is_first(after, other, m),
                    None => {
                        lemma_entry_index_bounds(after, other);
                        if entry_index(after, other) is Some {
                            let m = entry_index(after, other)->0;
                            assert(after[m].0 == other);
                            assert(entries[m].0 == other);
                        }
                    },
                }
            }
        },
        None => {
            lemma_entry_index_is_first(after, k, entries.len() as int);
            if other != k {
                match entry_index(entries, other) {
                    Some(m) => lemma_entry_index_is_first(after, other, m),
                    None => {
                        lemma_entry_index_bounds(after, other);
                        if entry_index(after, other) is Some {
                            let m = entry_index(after, other)->0;
                            assert(after[m].0 == other);
                            assert(m < entries.len());
                            assert(entries[m].0 == other);
                        }
                    },
                }
            }
        },
    }
}

/// Inserting a key twice is inserting it once with the second value: the
/// key keeps the place it got first, and the last value written wins.
pub proof fn lemma_insert_last_write_wins<V>(entries: Seq<(Seq<char>, V)>, k: Seq<char>, v1: V, v2: V)
    ensures
        entries_insert(entries_insert(entries, k, v1), k, v2) == entries_insert(entries, k, v2),
{
    let once = entries_insert(entries, k, v1);
    lemma_entry_index_bounds(entries, k);
    match entry_index(entries, k) {
        Some(i) => {
            lemma_entry_index_is_first(once, k, i);
            assert(once.update(i, (k, v2)) =~= entries.update(i, (k, v2)));
        },
        None => {
            lemma_entry_index_is_first(once, k, entries.len() as int);
            assert(once.update(entries.len() as int, (k, v2)) =~= entries.push((k, v2)));
        },
    }
}

/// Inserting keeps every existing entry's key in place; a new key goes
/// last.
pub proof fn lemma_insert_keeps_order<V>(entries: Seq<(Seq<char>, V)>, k: Seq<char>, v: V)
    ensures
        ({
            let after = entries_insert(entries, k, v);
            &&& after.len() == entries.len() + (if entry_index(entries, k) is Some { 0int } else { 1int })
            &&& forall|j: int| 0 <= j < entries.len() ==> (#[trigger] after[j]).0 == entries[j].0
        }),
{
    lemma_entry_index_bounds(entries, k);
}

/// `IndexMap::new`.
#[verifier::external_body]
pub(crate) fn input_map_new() -> (m: IndexMap<String, String>)
    ensures
        index_map_entries(m) == Seq::<(Seq<char>, Seq<char>)>::empty(),
{
    IndexMap::new()
}

/// `IndexMap::insert`: replaces the value of an existing key in place,
/// otherwise appends the entry.
#[verifier::external_body]
pub(crate) fn input_map_insert(m: &mut IndexMap<String, String>, k: String, v: String)
    ensures
        index_map_entries(*final(m)) == entries_insert(index_map_entries(*old(m)), k@, v@),
{
    m.insert(k, v);
}

/// `IndexMap::get`.
#[verifier::external_body]
pub(crate) fn input_map_get<'a>(m: &'a IndexMap<String, String>, k: &str) -> (r: Option<&'a String>)
    ensures
        match r {
            Some(v) => entry_lookup(index_map_entries(*m), k@) == Some(v@),
            None => entry_lookup(index_map_entries(*m), k@) is None,
        },
{
    m.get(k)
}

/// `IndexMap::len`.
#[verifier::external_body]
pub(crate) fn input_map_len(m: &IndexMap<String, String>) -> (r: usize)
    ensures
        r == index_map_entries(*m).len(),
{
    m.len()
}

/// `IndexMap::get_index`: the entry at position `i`.
#[verifier::external_body]
pub(crate) fn input_map_entry<'a>(m: &'a IndexMap<String, String>, i: usize) -> (r: (&'a String, &'a String))
    requires
        i < index_map_entries(*m).len(),
    ensures
        r.0@ == index_map_entries(*m)[i as int].0,
        r.1@ == index_map_entries(*m)[i as int].1,
{
    m.get_index(i).unwrap()
}

} // verus!
