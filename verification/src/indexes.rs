//! Insertion-ordered index maps backing the descriptor registry.
//!
//! The registry keeps its name and number indices in `LinkedHashMap`s from the
//! `linked_hash_map` crate.  The maps are opaque to the verifier; the
//! functions here wrap the handful of operations the registry needs and state
//! their effect over the maps' mathematical contents.

use vstd::prelude::*;
use linked_hash_map::LinkedHashMap;

verus! {

#[verifier::external_type_specification]
#[verifier::external_body]
#[verifier::reject_recursive_types(K)]
#[verifier::reject_recursive_types(V)]
#[verifier::reject_recursive_types(S)]
pub struct ExLinkedHashMap<K, V, S>(LinkedHashMap<K, V, S>);

/// An insertion-ordered map from names to indices into a descriptor sequence.
pub type NameIndex = LinkedHashMap<String, usize>;

/// An insertion-ordered map from numbers to indices into a descriptor
/// sequence.
pub type NumberIndex = LinkedHashMap<i32, usize>;

/// The entries of a name index, as a mathematical map from character
/// sequences to stored indices.
pub uninterp spec fn name_index_entries(m: NameIndex) -> Map<Seq<char>, usize>;

/// The entries of a number index, as a mathematical map.
pub uninterp spec fn number_index_entries(m: NumberIndex) -> Map<i32, usize>;

/// Relies on `LinkedHashMap::new`: the new map is empty.
#[verifier::external_body]
pub(crate) fn name_index_new() -> (res: NameIndex)
    ensures
        name_index_entries(res) == (Map::<Seq<char>, usize>::empty()),
{
    LinkedHashMap::new()
}

/// Relies on `LinkedHashMap::insert`: after the call the key maps to the
/// given value; no other key is affected.
#[verifier::external_body]
pub(crate) fn name_index_insert(m: &mut NameIndex, k: String, v: usize)
    ensures
        name_index_entries(*final(m)) == name_index_entries(*old(m)).insert(k@, v),
{
    m.insert(k, v);
}

/// Relies on `LinkedHashMap::get`: returns the value the key maps to, if any.
#[verifier::external_body]
pub(crate) fn name_index_get(m: &NameIndex, k: &str) -> (r: Option<usize>)
    ensures
        r == (if name_index_entries(*m).contains_key(k@) {
            Some(name_index_entries(*m)[k@])
        } else {
            None::<usize>
        }),
{
    m.get(k).copied()
}

/// Relies on `LinkedHashMap::new`: the new map is empty.
#[verifier::external_body]
pub(crate) fn number_index_new() -> (m: NumberIndex)
    ensures
        number_index_entries(m) == (Map::<i32, usize>::empty()),
{
    LinkedHashMap::new()
}

/// Relies on `LinkedHashMap::insert`: after the call the key maps to the
/// given value; no other key is affected.
#[verifier::external_body]
pub(crate) fn number_index_insert(m: &mut NumberIndex, k: i32, v: usize)
    ensures
        number_index_entries(*final(m)) == number_index_entries(*old(m)).insert(k, v),
{
    m.insert(k, v);
}

/// Relies on `LinkedHashMap::get`: returns the value the key maps to, if any.
#[verifier::external_body]
pub(crate) fn number_index_get(m: &NumberIndex, k: i32) -> (r: Option<usize>)
    ensures
        r == (if number_index_entries(*m).contains_key(k) {
            Some(number_index_entries(*m)[k])
        } else {
            None::<usize>
        }),
{
    m.get(&k).copied()
}

} // verus!
