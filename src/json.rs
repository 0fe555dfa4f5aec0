//! Reading the JSON documents that the language model answers with.
use vstd::prelude::*;

verus! {

/// The text held under `key` in the JSON object written in `doc`, when `doc`
/// is valid JSON, is an object, and holds a string under `key`.
pub uninterp spec fn json_text_field_of(doc: Seq<char>, key: Seq<char>) -> Option<Seq<char>>;

/// Relies on serde_json: `from_str` into a `Value`, then `Value::get` with a
/// string key and `Value::as_str`. The result depends on `doc` and `key` alone.
#[verifier::external_body]
pub(crate) fn json_text_field(doc: &str, key: &str) -> (r: Option<String>)
    ensures
        match r {
            Some(v) => json_text_field_of(doc@, key@) == Some(v@),
            None => json_text_field_of(doc@, key@) is None,
        },
{
    let value: serde_json::Value = serde_json::from_str(doc).ok()?;
    let field = value.get(key)?.as_str()?;
    Some(field.to_string())
}

} // verus!
