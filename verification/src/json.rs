use vstd::prelude::*;

use crate::text::opt_view;

verus! {

#[verifier::external_type_specification]
#[verifier::external_body]
pub struct ExJsonError(serde_json::Error);

/// Whether `serde_json` reads `doc` as one JSON value.
pub uninterp spec fn json_parses(doc: Seq<char>) -> bool;

/// Whether the value at the JSON pointer `pointer` in `doc` is an object.
pub uninterp spec fn json_object_at(doc: Seq<char>, pointer: Seq<char>) -> bool;

/// The string at the JSON pointer `pointer` in `doc`, if the value there is a string.
pub uninterp spec fn json_str_at(doc: Seq<char>, pointer: Seq<char>) -> Option<Seq<char>>;

/// The number at the JSON pointer `pointer` in `doc`, if it is an integer that fits in `i64`.
pub uninterp spec fn json_i64_at(doc: Seq<char>, pointer: Seq<char>) -> Option<i64>;

/// The number at the JSON pointer `pointer` in `doc`, if it is an integer that fits in `u64`.
pub uninterp spec fn json_u64_at(doc: Seq<char>, pointer: Seq<char>) -> Option<u64>;

/// The compact JSON text of the value at the JSON pointer `pointer` in `doc`, if there is one.
pub uninterp spec fn json_text_at(doc: Seq<char>, pointer: Seq<char>) -> Option<Seq<char>>;

/// Calls `serde_json::from_str` for a `serde_json::Value`: whether `doc`
/// parses is named `json_parses`; the error is handed on.
#[verifier::external_body]
pub(crate) fn parse_json(doc: &str) -> (r: Result<(), serde_json::Error>)
    ensures
        r is Ok <==> json_parses(doc@),
{
    match serde_json::from_str::<serde_json::Value>(doc) {
        Ok(_) => Ok(()),
        Err(e) => Err(e),
    }
}

/// Calls `serde_json::Value::pointer` and then `is_object` on the parsed
/// `doc`; the answer is named `json_object_at`, and is false when `doc`
/// does not parse.
#[verifier::external_body]
pub(crate) fn object_at(doc: &str, pointer: &str) -> (r: bool)
    ensures
        r == json_object_at(doc@, pointer@),
        !json_parses(doc@) ==> !r,
{
    match serde_json::from_str::<serde_json::Value>(doc) {
        Ok(v) => match v.pointer(pointer) {
            Some(x) => x.is_object(),
            None => false,
        },
        Err(_) => false,
    }
}

/// Calls `serde_json::Value::pointer` and then `as_str` on the parsed
/// `doc`; the answer is named `json_str_at`, and is `None` when `doc` does
/// not parse.
#[verifier::external_body]
pub(crate) fn str_at(doc: &str, pointer: &str) -> (r: Option<String>)
    ensures
        opt_view(r) == json_str_at(doc@, pointer@),
        !json_parses(doc@) ==> r is None,
{
    match serde_json::from_str::<serde_json::Value>(doc) {
        Ok(v) => match v.pointer(pointer) {
            Some(x) => x.as_str().map(String::from),
            None => None,
        },
        Err(_) => None,
    }
}

/// Calls `serde_json::Value::pointer` and then `as_i64` on the parsed
/// `doc`; the answer is named `json_i64_at`, and is `None` when `doc` does
/// not parse.
#[verifier::external_body]
pub(crate) fn i64_at(doc: &str, pointer: &str) -> (r: Option<i64>)
    ensures
        r == json_i64_at(doc@, pointer@),
        !json_parses(doc@) ==> r is None,
{
    match serde_json::from_str::<serde_json::Value>(doc) {
        Ok(v) => match v.pointer(pointer) {
            Some(x) => x.as_i64(),
            None => None,
        },
        Err(_) => None,
    }
}

/// Calls `serde_json::Value::pointer` and then `as_u64` on the parsed
/// `doc`; the answer is named `json_u64_at`, and is `None` when `doc` does
/// not parse.
#[verifier::external_body]
pub(crate) fn u64_at(doc: &str, pointer: &str) -> (r: Option<u64>)
    ensures
        r == json_u64_at(doc@, pointer@),
        !json_parses(doc@) ==> r is None,
{
    match serde_json::from_str::<serde_json::Value>(doc) {
        Ok(v) => match v.pointer(pointer) {
            Some(x) => x.as_u64(),
            None => None,
        },
        Err(_) => None,
    }
}

/// Calls `serde_json::Value::pointer` and then `to_string` on the parsed
/// `doc`: the compact JSON text of the value found, named `json_text_at`;
/// `None` when there is no value there or `doc` does not parse.
#[verifier::external_body]
pub(crate) fn text_at(doc: &str, pointer: &str) -> (r: Option<String>)
    ensures
        opt_view(r) == json_text_at(doc@, pointer@),
        !json_parses(doc@) ==> r is None,
{
    match serde_json::from_str::<serde_json::Value>(doc) {
        Ok(v) => match v.pointer(pointer) {
            Some(x) => Some(x.to_string()),
            None => None,
        },
        Err(_) => None,
    }
}

} // verus!
