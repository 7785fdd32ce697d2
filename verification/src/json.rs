//! The JSON form of the configuration record.
//!
//! The record is a one-entry JSON object whose single field holds a string.
//! serde_json writes and reads that form; the two results are named here,
//! and the wrappers state how they relate.

use vstd::prelude::*;

verus! {

/// The JSON text that serde_json writes for a one-entry object whose
/// field `key` holds the string `value`.
pub uninterp spec fn json_string_object(key: Seq<char>, value: Seq<char>) -> Seq<char>;

/// The string held by the field `key` of the JSON object written in `s`,
/// if `s` is a JSON object whose field `key` holds a string.
pub uninterp spec fn json_string_field(s: Seq<char>, key: Seq<char>) -> Option<Seq<char>>;

/// Relies on serde_json::to_string over a one-entry serde_json::Map: the
/// result depends on the key and the value alone, and reading the same
/// field back from it yields the same value (serde_json round trip).
/// The call cannot fail: to_string errs only on a map with non-string
/// keys, and this map's key is a String.
#[verifier::external_body]
pub(crate) fn to_json_string_object(key: &str, value: &str) -> (r: String)
    ensures
        r@ == json_string_object(key@, value@),
        json_string_field(r@, key@) == Some(value@),
{
    let mut map = serde_json::Map::new();
    map.insert(key.to_string(), serde_json::Value::String(value.to_string()));
    serde_json::to_string(&serde_json::Value::Object(map)).unwrap()
}

/// Relies on serde_json::from_str, Value::get and Value::as_str: the
/// string at field `key` of the JSON object parsed from `s`, or nothing
/// where `s` is no JSON object or the field holds no string.
#[verifier::external_body]
pub(crate) fn get_json_string_field(s: &str, key: &str) -> (r: Option<String>)
    ensures
        match r {
            Some(v) => json_string_field(s@, key@) == Some(v@),
            None => json_string_field(s@, key@) is None,
        },
{
    match serde_json::from_str::<serde_json::Value>(s) {
        Ok(v) => match v.get(key) {
            Some(field) => field.as_str().map(|p| p.to_string()),
            None => None,
        },
        Err(_) => None,
    }
}

/// The JSON text of a configuration record naming `data_path`.
pub open spec fn config_json_of(data_path: Seq<char>) -> Seq<char> {
    json_string_object("data_path"@, data_path)
}

/// The data path named by the configuration text `s`, if `s` parses as a
/// configuration record.
pub open spec fn config_data_path_of(s: Seq<char>) -> Option<Seq<char>> {
    json_string_field(s, "data_path"@)
}

} // verus!
