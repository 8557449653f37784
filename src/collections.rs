//! The insertion-ordered map and set of `indexmap`, as this library uses them.
use indexmap::{IndexMap, IndexSet};
use vstd::prelude::*;

verus! {

#[verifier::external_type_specification]
#[verifier::external_body]
#[verifier::reject_recursive_types(K)]
#[verifier::reject_recursive_types(V)]
#[verifier::reject_recursive_types(S)]
pub struct ExIndexMap<K, V, S>(IndexMap<K, V, S>);

#[verifier::external_type_specification]
#[verifier::external_body]
#[verifier::reject_recursive_types(T)]
#[verifier::reject_recursive_types(S)]
pub struct ExIndexSet<T, S>(IndexSet<T, S>);

/// A set of flag names, kept in insertion order.
pub type FlagSet = IndexSet<String>;

/// Counts per label, kept in the order in which labels were first inserted.
pub type LabelCounts = IndexMap<String, usize>;

/// The entries of a count map, in its order.
pub uninterp spec fn count_entries(m: IndexMap<String, usize>) -> Seq<(Seq<char>, usize)>;

/// The names in a flag set, in its order.
pub uninterp spec fn flag_items(s: IndexSet<String>) -> Seq<Seq<char>>;

/// The first position of `key` among the keys of `entries`.
pub open spec fn key_index(entries: Seq<(Seq<char>, usize)>, key: Seq<char>) -> Option<int>
    decreases entries.len(),
{
    if entries.len() == 0 {
        None
    } else {
        match key_index(entries.drop_last(), key) {
            Some(i) => Some(i),
            None => if entries.last().0 == key {
                Some(entries.len() - 1)
            } else {
                None
            },
        }
    }
}

/// Relies on `IndexMap::new`: a new map holds no entry.
#[verifier::external_body]
pub(crate) fn counts_new() -> (r: LabelCounts)
    ensures
        count_entries(r) == Seq::<(Seq<char>, usize)>::empty(),
{
    IndexMap::new()
}

/// Relies on `IndexMap::len`: the number of entries.
#[verifier::external_body]
pub(crate) fn counts_len(m: &LabelCounts) -> (r: usize)
    ensures
        r == count_entries(*m).len(),
{
    m.len()
}

/// Relies on `IndexMap::get_index_of`: the position of the entry for `key`.
#[verifier::external_body]
pub(crate) fn counts_index_of(m: &LabelCounts, key: &String) -> (r: Option<usize>)
    ensures
        match key_index(count_entries(*m), key@) {
            Some(i) => r == Some(i as usize),
            None => r is None,
        },
{
    m.get_index_of(key)
}

/// Relies on `IndexMap::get_index`: the entry at position `i`.
#[verifier::external_body]
pub(crate) fn counts_get_index(m: &LabelCounts, i: usize) -> (r: (String, usize))
    requires
        i < count_entries(*m).len(),
    ensures
        (r.0@, r.1) == count_entries(*m)[i as int],
{
    let (k, v) = m.get_index(i).unwrap();
    (k.clone(), *v)
}

/// Relies on `IndexMap::insert`: an existing key keeps its place and takes the
/// new value; a new key is appended last.
#[verifier::external_body]
pub(crate) fn counts_insert(m: &mut LabelCounts, key: String, value: usize)
    ensures
        count_entries(*final(m)) == match key_index(count_entries(*old(m)), key@) {
            Some(i) => count_entries(*old(m)).update(i, (key@, value)),
            None => count_entries(*old(m)).push((key@, value)),
        },
{
    m.insert(key, value);
}

/// Relies on `IndexSet::contains`: whether an equal name is in the set.
#[verifier::external_body]
pub(crate) fn flag_set_contains(s: &FlagSet, name: &String) -> (r: bool)
    ensures
        r == flag_items(*s).contains(name@),
{
    s.contains(name)
}

/// Relies on `IndexSet::is_empty`: whether the set holds no name.
#[verifier::external_body]
pub(crate) fn flag_set_is_empty(s: &FlagSet) -> (r: bool)
    ensures
        r == (flag_items(*s).len() == 0),
{
    s.is_empty()
}

} // verus!
