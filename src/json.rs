//! Records held as serde_json objects, whose string fields keep the order in
//! which their keys were first inserted (serde_json's `preserve_order`).
use vstd::prelude::*;
use crate::table::{RecordView, upsert};

verus! {

#[verifier::external_type_specification]
#[verifier::external_body]
pub struct ExValue(serde_json::Value);

#[verifier::external_type_specification]
#[verifier::external_body]
#[verifier::reject_recursive_types(K)]
#[verifier::reject_recursive_types(V)]
pub struct ExMap<K, V>(serde_json::Map<K, V>);

/// The fields of an object built here, in order, as key/string pairs.
pub uninterp spec fn object_fields(m: serde_json::Map<String, serde_json::Value>) -> RecordView;

/// The fields of each object of a list.
pub open spec fn objects_view(objects: Seq<serde_json::Map<String, serde_json::Value>>) -> Seq<RecordView> {
    objects.map_values(|m: serde_json::Map<String, serde_json::Value>| object_fields(m))
}

/// Relies on `serde_json::Map::new`: an empty object.
#[verifier::external_body]
pub(crate) fn new_object() -> (r: serde_json::Map<String, serde_json::Value>)
    ensures
        object_fields(r) == Seq::<(Seq<char>, Seq<char>)>::empty(),
{
    serde_json::Map::new()
}

/// Relies on `serde_json::Map::insert` (an `IndexMap` under
/// `preserve_order`): a new key goes last; an existing key keeps its place
/// and takes the new value.
#[verifier::external_body]
pub(crate) fn insert_field(m: &mut serde_json::Map<String, serde_json::Value>, k: String, v: String)
    ensures
        object_fields(*final(m)) == upsert(object_fields(*old(m)), k@, v@),
{
    m.insert(k, serde_json::Value::String(v));
}

} // verus!
