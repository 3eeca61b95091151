//! JSON documents, as `serde_json` reads them.

use vstd::prelude::*;
use vstd::string::*;
use serde_json::Value;

verus! {

/// Whether `serde_json` reads `text` as a JSON document.
pub uninterp spec fn json_document(text: Seq<char>) -> bool;

/// The string that `serde_json` finds under `key` in the JSON document
/// `text`: nothing where `text` is no document, where the document is no
/// object, where it has no such key, or where what stands there is no string.
pub uninterp spec fn json_text_field(text: Seq<char>, key: Seq<char>) -> Option<Seq<char>>;

/// The truth value that `serde_json` finds under `key` in the JSON document
/// `text`: nothing where `text` is no document, where the document is no
/// object, where it has no such key, or where what stands there is no truth
/// value.
pub uninterp spec fn json_bool_field(text: Seq<char>, key: Seq<char>) -> Option<bool>;

/// A field that holds text, as the contracts see it.
pub open spec fn field_view(value: Option<String>) -> Option<Seq<char>> {
    match value {
        Some(text) => Some(text@),
        None => None,
    }
}

/// `serde_json::from_str` into a `Value`, asked whether it succeeded. The
/// answer depends on the text alone; the contract gives it the name
/// `json_document` and claims nothing else of it.
#[verifier::external_body]
pub(crate) fn reads_as_json(text: &str) -> (valid: bool)
    ensures
        valid == json_document(text@),
{
    serde_json::from_str::<Value>(text).is_ok()
}

/// `serde_json::from_str` into a `Value`, then the value's index by a string
/// and `Value::as_str`. The answer depends on the text and the key alone; the
/// contract gives it the name `json_text_field` and claims nothing else of it.
#[verifier::external_body]
pub(crate) fn text_field(text: &str, key: &str) -> (value: Option<String>)
    ensures
        field_view(value) == json_text_field(text@, key@),
{
    serde_json::from_str::<Value>(text).ok().and_then(
        |document| document[key].as_str().map(String::from),
    )
}

/// `serde_json::from_str` into a `Value`, then the value's index by a string
/// and `Value::as_bool`. The answer depends on the text and the key alone;
/// the contract gives it the name `json_bool_field` and claims nothing else
/// of it.
#[verifier::external_body]
pub(crate) fn bool_field(text: &str, key: &str) -> (value: Option<bool>)
    ensures
        value == json_bool_field(text@, key@),
{
    serde_json::from_str::<Value>(text).ok().and_then(|document| document[key].as_bool())
}

} // verus!
