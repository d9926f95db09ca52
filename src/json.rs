//! Stored values: JSON documents kept in the store as their text.
use vstd::prelude::*;

verus! {

#[verifier::external_type_specification]
#[verifier::external_body]
pub struct ExJsonValue(serde_json::Value);

#[verifier::external_type_specification]
#[verifier::external_body]
pub struct ExJsonError(serde_json::Error);

/// Whether `serde_json::from_str` reads `text` as a JSON value.
pub uninterp spec fn parses_as_json(text: Seq<char>) -> bool;

/// Relies on `serde_json::to_string`: the text of a JSON document. It fails only where a
/// `Serialize` impl fails or a map has non-string keys, and `Value`'s impl does neither.
#[verifier::external_body]
pub(crate) fn value_to_string(value: &serde_json::Value) -> (r: Result<String, serde_json::Error>)
    ensures
        r is Ok,
{
    serde_json::to_string(value)
}

/// Relies on `serde_json::from_str`: it succeeds exactly on the texts that it reads as a
/// JSON value.
#[verifier::external_body]
pub(crate) fn string_to_value(text: &String) -> (r: Result<serde_json::Value, serde_json::Error>)
    ensures
        r.is_ok() == parses_as_json(text@),
{
    serde_json::from_str(text.as_str())
}

} // verus!
