//! JSON texts: lists of strings, and the string at a place of a document.

use vstd::prelude::*;
use crate::text::strings_view;

verus! {

/// `serde_json`'s error, as an opaque value.
#[verifier::external_type_specification]
#[verifier::external_body]
pub struct ExJsonError(serde_json::Error);

/// The list of strings that a JSON text denotes, if it is an array of
/// strings and nothing else.
pub uninterp spec fn json_strings(text: Seq<char>) -> Option<Seq<Seq<char>>>;

/// The JSON text of a list of strings, if it has one.
pub uninterp spec fn strings_json(list: Seq<Seq<char>>) -> Option<Seq<char>>;

/// The string that stands in a JSON text under the key `inner` of what
/// stands under the key `outer`, if the text is JSON and a string stands
/// there.
pub uninterp spec fn json_string_in(text: Seq<char>, outer: Seq<char>, inner: Seq<char>) -> Option<
    Seq<char>,
>;

/// Has `serde_json` read `text` as a `Value`, looks up `outer` in it and
/// `inner` in what is found with `Value::get`, and takes what stands there
/// with `Value::as_str`. The result is named, not described: it is
/// `json_string_in` of the three texts.
#[verifier::external_body]
pub(crate) fn read_string_in(text: &str, outer: &str, inner: &str) -> (r: Option<String>)
    ensures
        match r {
            Some(s) => json_string_in(text@, outer@, inner@) == Some(s@),
            None => json_string_in(text@, outer@, inner@).is_none(),
        },
{
    match serde_json::from_str::<serde_json::Value>(text) {
        Ok(value) => value.get(outer).and_then(|v| v.get(inner)).and_then(|v| v.as_str()).map(
            |s| s.to_owned(),
        ),
        Err(_) => None,
    }
}

/// Calls `serde_json::from_str` for a `Vec<String>`. The result is named,
/// not described: it is `json_strings` of the text, and an error where that
/// is nothing.
#[verifier::external_body]
pub(crate) fn read_strings(text: &str) -> (r: Result<Vec<String>, serde_json::Error>)
    ensures
        match r {
            Ok(list) => json_strings(text@) == Some(strings_view(list@)),
            Err(_) => json_strings(text@).is_none(),
        },
{
    serde_json::from_str::<Vec<String>>(text)
}

/// Calls `serde_json::to_string` on a `Vec<String>`. The result is named,
/// not described: it is `strings_json` of the list, and an error where that
/// is nothing.
#[verifier::external_body]
pub(crate) fn write_strings(list: &Vec<String>) -> (r: Result<String, serde_json::Error>)
    ensures
        match r {
            Ok(text) => strings_json(strings_view(list@)) == Some(text@),
            Err(_) => strings_json(strings_view(list@)).is_none(),
        },
{
    serde_json::to_string(list)
}

} // verus!
