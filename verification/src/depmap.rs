//! The dependency-group mapping: package name to declared constraint.
//!
//! The mapping is indexmap's `IndexMap`, an insertion-order-preserving map,
//! kept behind trusted declarations. Its contents are modelled as the
//! ordered sequence of key-value pairs, each as a sequence of characters.

use std::collections::hash_map::RandomState;

use indexmap::IndexMap;
use vstd::prelude::*;

verus! {

/// indexmap's insertion-order-preserving map, opaque to the verifier.
#[verifier::external_type_specification]
#[verifier::external_body]
#[verifier::reject_recursive_types(K)]
#[verifier::reject_recursive_types(V)]
#[verifier::reject_recursive_types(S)]
pub struct ExIndexMap<K, V, S>(IndexMap<K, V, S>);

/// What a dependency mapping holds: its key-value pairs, in their order.
pub uninterp spec fn imap_entries(m: IndexMap<String, String, RandomState>) -> Seq<
    (Seq<char>, Seq<char>),
>;

/// The position of `key` among `entries`, or -1 where no pair carries it.
pub open spec fn find_key(entries: Seq<(Seq<char>, Seq<char>)>, key: Seq<char>) -> int
    decreases entries.len(),
{
    if entries.len() == 0 {
        -1
    } else if entries.first().0 == key {
        0
    } else {
        let r = find_key(entries.drop_first(), key);
        if r == -1 {
            -1
        } else {
            r + 1
        }
    }
}

/// Whether some pair among `entries` carries `key`.
pub open spec fn has_key(entries: Seq<(Seq<char>, Seq<char>)>, key: Seq<char>) -> bool {
    find_key(entries, key) >= 0
}

/// What inserting does to the ordered pairs: an existing key keeps its
/// place and gets the new value; a new key is appended last.
pub open spec fn entries_insert(
    entries: Seq<(Seq<char>, Seq<char>)>,
    key: Seq<char>,
    value: Seq<char>,
) -> Seq<(Seq<char>, Seq<char>)> {
    let i = find_key(entries, key);
    if i >= 0 {
        entries.update(i, (key, value))
    } else {
        entries.push((key, value))
    }
}

/// `find_key` points at the first pair carrying the key, and fails only
/// where no pair carries it.
pub proof fn lemma_find_key(entries: Seq<(Seq<char>, Seq<char>)>, key: Seq<char>)
    ensures
        find_key(entries, key) >= -1,
        find_key(entries, key) == -1 ==> forall|j: int|
            0 <= j < entries.len() ==> (#[trigger] entries[j]).0 != key,
        find_key(entries, key) >= 0 ==> {
            &&& find_key(entries, key) < entries.len()
            &&& entries[find_key(entries, key)].0 == key
            &&& forall|j: int| 0 <= j < find_key(entries, key) ==> (#[trigger] entries[j]).0 != key
        },
    decreases entries.len(),
{
    if entries.len() == 0 {
    } else if entries.first().0 == key {
        assert(entries[0] == entries.first());
    } else {
        let rest = entries.drop_first();
        lemma_find_key(rest, key);
        let r = find_key(rest, key);
        assert(rest.len() == entries.len() - 1);
        assert(forall|j: int| 0 <= j < rest.len() ==> #[trigger] rest[j] == entries[j + 1]);
        if r == -1 {
            assert forall|j: int| 0 <= j < entries.len() implies (#[trigger] entries[j]).0
                != key by {
                if j == 0 {
                    assert(entries[0] == entries.first());
                } else {
                    assert(rest[j - 1] == entries[j]);
                    assert(rest[j - 1].0 != key);
                }
            }
        } else {
            assert(entries[r + 1] == rest[r]);
            assert forall|j: int| 0 <= j < r + 1 implies (#[trigger] entries[j]).0 != key by {
                if j == 0 {
                    assert(entries[0] == entries.first());
                } else {
                    assert(rest[j - 1] == entries[j]);
                    assert(rest[j - 1].0 != key);
                }
            }
        }
    }
}

/// A key is found among the pairs exactly when some pair carries it.
pub proof fn lemma_has_key_exists(entries: Seq<(Seq<char>, Seq<char>)>, key: Seq<char>)
    ensures
        has_key(entries, key) <==> exists|j: int|
            0 <= j < entries.len() && (#[trigger] entries[j]).0 == key,
{
    lemma_find_key(entries, key);
    if find_key(entries, key) >= 0 {
        assert(entries[find_key(entries, key)].0 == key);
    }
}

/// Relies on indexmap's `IndexMap::insert`: if an equivalent key exists it
/// keeps its place in the order, its value is replaced and the older value
/// is returned; otherwise the pair is inserted last in order and nothing is
/// returned.
#[verifier::external_body]
pub(crate) fn imap_insert(m: &mut IndexMap<String, String>, key: String, value: String) -> (prior: Option<
    String,
>)
    ensures
        imap_entries(*final(m)) == entries_insert(imap_entries(*old(m)), key@, value@),
        prior is Some <==> has_key(imap_entries(*old(m)), key@),
        prior matches Some(v) ==> v@ == imap_entries(*old(m))[find_key(
            imap_entries(*old(m)),
            key@,
        )].1,
{
    m.insert(key, value)
}

/// Relies on indexmap's `IndexMap::iter`: the key-value pairs of the map,
/// in their order.
#[verifier::external_body]
pub(crate) fn imap_pairs(m: &IndexMap<String, String>) -> (r: Vec<(String, String)>)
    ensures
        r@.len() == imap_entries(*m).len(),
        forall|i: int|
            0 <= i < r@.len() ==> (#[trigger] r@[i]).0@ == imap_entries(*m)[i].0 && r@[i].1@
                == imap_entries(*m)[i].1,
{
    m.iter().map(|(k, v)| (k.clone(), v.clone())).collect()
}

} // verus!
