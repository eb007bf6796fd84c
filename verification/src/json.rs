//! JSON objects of string fields, written by `serde_json`.

use vstd::prelude::*;

verus! {

/// The JSON text that `serde_json` writes for an object whose fields, in the
/// given order, map each name to a string.
pub uninterp spec fn json_object(fields: Seq<(Seq<char>, Seq<char>)>) -> Seq<char>;

/// The texts of a list of name and value pairs.
pub open spec fn field_texts(fields: Seq<(String, String)>) -> Seq<(Seq<char>, Seq<char>)> {
    fields.map_values(|f: (String, String)| (f.0@, f.1@))
}

/// `serde_json::Value::Object` of a `serde_json::Map` filled with the fields
/// as `Value::String`s, written by its `Display` (`to_string`). The escaping
/// and the order of the keys are serde_json's and are not stated: the result
/// is named `json_object`.
#[verifier::external_body]
pub(crate) fn serde_json_object(fields: &[(String, String)]) -> (r: String)
    ensures
        r@ == json_object(field_texts(fields@)),
{
    let mut map = serde_json::Map::new();
    for (name, value) in fields {
        map.insert(name.clone(), serde_json::Value::String(value.clone()));
    }
    serde_json::Value::Object(map).to_string()
}

} // verus!
