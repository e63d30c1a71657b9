//! Looking values up in JSON text.
//!
//! Reading JSON is `serde_json`'s work. What it reads is named here, so that
//! the parsers of Docker's output can say what they return.

use vstd::prelude::*;

verus! {

/// Whether `serde_json` reads the text as one JSON value.
pub uninterp spec fn json_is_valid(text: Seq<char>) -> bool;

/// The string that `serde_json` finds in the text under a JSON Pointer;
/// `None` where the text is no JSON, nothing stands under the pointer, or
/// what stands there is no string.
pub uninterp spec fn json_text_at(text: Seq<char>, pointer: Seq<char>) -> Option<Seq<char>>;

/// The boolean that `serde_json` finds in the text under a JSON Pointer.
pub uninterp spec fn json_flag_at(text: Seq<char>, pointer: Seq<char>) -> Option<bool>;

/// The length of the array that `serde_json` finds in the text under a JSON
/// Pointer.
pub uninterp spec fn json_length_at(text: Seq<char>, pointer: Seq<char>) -> Option<usize>;

/// `serde_json::from_str` into a `Value`: whether the text parses.
#[verifier::external_body]
pub(crate) fn is_json(text: &str) -> (r: bool)
    ensures
        r == json_is_valid(text@),
{
    serde_json::from_str::<serde_json::Value>(text).is_ok()
}

/// `serde_json::from_str` into a `Value`, then `Value::pointer` and
/// `Value::as_str`: the string under the pointer.
#[verifier::external_body]
pub(crate) fn text_at(text: &str, pointer: &str) -> (r: Option<String>)
    ensures
        match r {
            Some(s) => json_text_at(text@, pointer@) == Some(s@),
            None => json_text_at(text@, pointer@) is None,
        },
{
    let doc: serde_json::Value = serde_json::from_str(text).ok()?;
    Some(doc.pointer(pointer)?.as_str()?.to_string())
}

/// `serde_json::from_str` into a `Value`, then `Value::pointer` and
/// `Value::as_bool`: the boolean under the pointer.
#[verifier::external_body]
pub(crate) fn flag_at(text: &str, pointer: &str) -> (r: Option<bool>)
    ensures
        r == json_flag_at(text@, pointer@),
{
    let doc: serde_json::Value = serde_json::from_str(text).ok()?;
    doc.pointer(pointer)?.as_bool()
}

/// `serde_json::from_str` into a `Value`, then `Value::pointer` and
/// `Value::as_array`: the length of the array under the pointer.
#[verifier::external_body]
pub(crate) fn length_at(text: &str, pointer: &str) -> (r: Option<usize>)
    ensures
        r == json_length_at(text@, pointer@),
{
    let doc: serde_json::Value = serde_json::from_str(text).ok()?;
    Some(doc.pointer(pointer)?.as_array()?.len())
}

/// A text that was looked up, or the default where there was none.
pub open spec fn found_or(found: Option<Seq<char>>, default: Seq<char>) -> Seq<char> {
    match found {
        Some(t) => t,
        None => default,
    }
}

/// The string under a pointer, or the default where there is none.
pub fn text_at_or(text: &str, pointer: &str, default: &str) -> (r: String)
    ensures
        r@ == found_or(json_text_at(text@, pointer@), default@),
{
    match text_at(text, pointer) {
        Some(s) => s,
        None => default.to_string(),
    }
}

/// The boolean under a pointer, or `false` where there is none.
pub fn flag_at_or_false(text: &str, pointer: &str) -> (r: bool)
    ensures
        r == (json_flag_at(text@, pointer@) == Some(true)),
{
    match flag_at(text, pointer) {
        Some(b) => b,
        None => false,
    }
}

} // verus!
