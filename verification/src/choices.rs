//! The choices of a vote, each with its count, in the order in which they were first named.
use indexmap::IndexMap;
use vstd::prelude::*;

verus! {

/// [`indexmap::IndexMap`]: a hash map that keeps the order of insertion.
#[verifier::external_type_specification]
#[verifier::external_body]
#[verifier::reject_recursive_types(K)]
#[verifier::reject_recursive_types(V)]
#[verifier::reject_recursive_types(S)]
pub struct ExIndexMap<K, V, S>(indexmap::IndexMap<K, V, S>);

/// The entries of the map, in its order.
pub uninterp spec fn choice_seq(m: IndexMap<String, i64>) -> Seq<(Seq<char>, i64)>;

/// Whether `key` is the key of entry `i`.
pub open spec fn key_at(s: Seq<(Seq<char>, i64)>, i: int, key: Seq<char>) -> bool {
    0 <= i < s.len() && s[i].0 == key
}

/// Whether some entry has the key.
pub open spec fn has_key(s: Seq<(Seq<char>, i64)>, key: Seq<char>) -> bool {
    exists|i: int| key_at(s, i, key)
}

/// Whether no key occurs twice.
pub open spec fn distinct_keys(s: Seq<(Seq<char>, i64)>) -> bool {
    forall|i: int, j: int| 0 <= i < j < s.len() ==> (#[trigger] s[i]).0 != (#[trigger] s[j]).0
}

/// [`IndexMap::new`] makes a map without entries.
#[verifier::external_body]
pub(crate) fn choices_new() -> (m: IndexMap<String, i64>)
    ensures
        choice_seq(m) == Seq::<(Seq<char>, i64)>::empty(),
{
    IndexMap::new()
}

/// [`IndexMap::insert`] gives the key the value: in the place that the key has, or at the end
/// where it has none. A map never holds a key twice.
#[verifier::external_body]
pub(crate) fn choices_insert(m: &mut IndexMap<String, i64>, key: String, value: i64)
    ensures
        forall|i: int| #[trigger]
            key_at(choice_seq(*old(m)), i, key@) ==> choice_seq(*final(m)) == choice_seq(
                *old(m),
            ).update(i, (key@, value)),
        !has_key(choice_seq(*old(m)), key@) ==> choice_seq(*final(m)) == choice_seq(*old(m)).push(
            (key@, value),
        ),
        distinct_keys(choice_seq(*final(m))),
{
    m.insert(key, value);
}

/// [`IndexMap::get`] finds the value of a key.
#[verifier::external_body]
pub(crate) fn choices_get(m: &IndexMap<String, i64>, key: &String) -> (r: Option<i64>)
    ensures
        r is None <==> !has_key(choice_seq(*m), key@),
        forall|i: int| #[trigger]
            key_at(choice_seq(*m), i, key@) ==> r == Some(choice_seq(*m)[i].1),
{
    m.get(key).copied()
}

/// [`IndexMap::get_index`] gives the entry at a position.
#[verifier::external_body]
pub(crate) fn choices_at(m: &IndexMap<String, i64>, index: usize) -> (r: Option<(&String, &i64)>)
    ensures
        match r {
            Some((key, value)) => index < choice_seq(*m).len() && choice_seq(*m)[index as int] == (
                key@,
                *value,
            ),
            None => index >= choice_seq(*m).len(),
        },
{
    m.get_index(index)
}

/// [`IndexMap::clone`] makes a map with the same entries in the same order.
#[verifier::external_body]
pub(crate) fn choices_clone(m: &IndexMap<String, i64>) -> (r: IndexMap<String, i64>)
    ensures
        choice_seq(r) == choice_seq(*m),
{
    m.clone()
}

} // verus!
