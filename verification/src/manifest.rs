//! Writing reconciled constraint mappings back into the manifest document.
//!
//! The document is serde_json's `Value`, opaque to the verifier and
//! modelled by `json_of`: a JSON tree over plain values. Only the two
//! dependency mappings at the document's top level are ever replaced; every
//! other field keeps its value.

use crate::depmap::imap_entries;
use indexmap::IndexMap;
use serde_json::Value;
use vstd::prelude::*;

verus! {

/// serde_json's document value, opaque to the verifier.
#[verifier::external_type_specification]
#[verifier::external_body]
pub struct ExValue(Value);

/// The mathematical content of a manifest document: a JSON tree. A number
/// is carried as its decimal rendering; nothing here ever reads one.
pub ghost enum JsonData {
    Null,
    Bool(bool),
    Number(Seq<char>),
    Text(Seq<char>),
    Array(Seq<JsonData>),
    Object(Map<Seq<char>, JsonData>),
}

/// What a document value holds: its JSON tree.
pub uninterp spec fn json_of(v: Value) -> JsonData;

/// The JSON object a mapping of constraint strings turns into.
pub open spec fn string_map_json(entries: Seq<(Seq<char>, Seq<char>)>) -> Map<Seq<char>, JsonData>
    decreases entries.len(),
{
    if entries.len() == 0 {
        Map::empty()
    } else {
        string_map_json(entries.drop_last()).insert(
            entries.last().0,
            JsonData::Text(entries.last().1),
        )
    }
}

/// A document with one top-level field replaced: on an object that has the
/// key, the value at the key becomes `val`; any other document is left as
/// it is.
pub open spec fn set_field(d: JsonData, key: Seq<char>, val: JsonData) -> JsonData {
    if d is Object && d->Object_0.dom().contains(key) {
        JsonData::Object(d->Object_0.insert(key, val))
    } else {
        d
    }
}

/// Why a write-back could fail. Serializing a map of strings cannot fail,
/// and `insert_new_maps` promises `Ok`; the type keeps the caller's
/// error-handling shape.
#[derive(Clone, Copy, Debug, PartialEq, Eq, Structural)]
pub enum ManifestError {
    Serialize,
}

/// Relies on serde_json::to_value: a map of strings serializes to the JSON
/// object holding exactly those keys, each with its string value. It fails
/// only when a value's serializer fails or a map key is not a string;
/// string keys and string values admit neither, so the call succeeds.
#[verifier::external_body]
fn string_map_to_value(m: &IndexMap<String, String>) -> (r: Option<Value>)
    ensures
        r is Some,
        r matches Some(v) ==> json_of(v) == JsonData::Object(string_map_json(imap_entries(*m))),
{
    match serde_json::to_value(m) {
        Ok(v) => Some(v),
        Err(_) => None,
    }
}

/// Relies on serde_json's `Value::get_mut` with a string index: on an
/// object it finds the value at that key; on any other document, or an
/// object without the key, it finds nothing.
#[verifier::external_body]
fn doc_set_field(doc: &mut Value, key: &str, new_val: Value) -> (r: bool)
    ensures
        r == (json_of(*old(doc)) is Object && json_of(*old(doc))->Object_0.dom().contains(key@)),
        r ==> json_of(*final(doc)) == JsonData::Object(
            json_of(*old(doc))->Object_0.insert(key@, json_of(new_val)),
        ),
        !r ==> *final(doc) == *old(doc),
{
    if let Some(slot) = doc.get_mut(key) {
        *slot = new_val;
        true
    } else {
        false
    }
}

/// Replaces the two dependency mappings at the document's top level with
/// the given ones, leaving every other field as it was. A field that the
/// document does not carry is not added. The write-back always succeeds:
/// serializing a map of strings cannot fail.
pub fn insert_new_maps(
    package_json: &mut Value,
    deps: IndexMap<String, String>,
    dev_deps: IndexMap<String, String>,
) -> (r: Result<(), ManifestError>)
    ensures
        r is Ok,
        json_of(*final(package_json)) == set_field(
            set_field(
                json_of(*old(package_json)),
                "dependencies"@,
                JsonData::Object(string_map_json(imap_entries(deps))),
            ),
            "devDependencies"@,
            JsonData::Object(string_map_json(imap_entries(dev_deps))),
        ),
{
    let deps_value = string_map_to_value(&deps).unwrap();
    let dev_deps_value = string_map_to_value(&dev_deps).unwrap();
    let _ = doc_set_field(package_json, "dependencies", deps_value);
    let _ = doc_set_field(package_json, "devDependencies", dev_deps_value);
    Ok(())
}

/// The write-back is idempotent: replacing the two dependency fields a
/// second time with the same mappings leaves the document exactly as the
/// first replacement did.
pub proof fn lemma_write_back_idempotent(
    d: JsonData,
    k1: Seq<char>,
    v1: JsonData,
    k2: Seq<char>,
    v2: JsonData,
)
    ensures
        set_field(set_field(set_field(set_field(d, k1, v1), k2, v2), k1, v1), k2, v2)
            == set_field(set_field(d, k1, v1), k2, v2),
{
    if d is Object {
        let m = d->Object_0;
        if m.dom().contains(k1) && m.dom().contains(k2) {
            let m2 = m.insert(k1, v1).insert(k2, v2);
            assert(m2.insert(k1, v1).insert(k2, v2) =~= m2);
        } else if m.dom().contains(k1) {
            let m1 = m.insert(k1, v1);
            assert(!m1.dom().contains(k2));
            assert(m1.insert(k1, v1) =~= m1);
        } else if m.dom().contains(k2) {
            let m2 = m.insert(k2, v2);
            assert(!m2.dom().contains(k1));
            assert(m2.insert(k2, v2) =~= m2);
        }
    }
}

} // verus!
