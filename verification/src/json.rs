//! The boundary to `serde_json`. Parsing and serialising are done by that
//! crate; this module states what the rest of the library relies on and
//! offers verified readers on top of it.
//!
//! Everything marked `external_body` or `assume_specification` here is
//! believed, not proved.

use crate::text::texts;
use vstd::prelude::*;

verus! {

/// `serde_json::Value`, carried through verified code without looking inside.
#[verifier::external_type_specification]
#[verifier::external_body]
pub struct ExValue(serde_json::Value);

/// What a JSON value holds, as far as this library reads it. Numbers are
/// told apart from the other kinds but not from each other.
pub ghost enum Json {
    Null,
    Bool(bool),
    Number,
    Text(Seq<char>),
    Array(Seq<Json>),
    Object(Map<Seq<char>, Json>),
}

/// The contents of a `serde_json::Value`: its variant, the text of a string,
/// the elements of an array in order, the members of an object by key.
pub uninterp spec fn json_content(v: serde_json::Value) -> Json;

/// What `serde_json::from_str::<serde_json::Value>` makes of a text: the
/// parsed value's contents, or `None` where it reports an error.
pub uninterp spec fn json_document(text: Seq<char>) -> Option<Json>;

/// What `serde_json::to_string` writes for a slice of strings.
pub uninterp spec fn json_text_of_strings(items: Seq<Seq<char>>) -> Seq<char>;

/// Calls `serde_json::from_str::<serde_json::Value>` and drops the error.
/// Claims only that the outcome is the one named by [`json_document`]: the
/// parser reads nothing but its argument.
#[verifier::external_body]
pub(crate) fn parse_value(text: &str) -> (r: Option<serde_json::Value>)
    ensures
        r is Some <==> json_document(text@) is Some,
        r matches Some(v) ==> json_content(v) == json_document(text@).unwrap(),
{
    serde_json::from_str::<serde_json::Value>(text).ok()
}

/// Calls `serde_json::Value::get` with a string key. Claims what its source
/// shows: on an object it looks the key up among the members, on any other
/// value it returns `None`.
#[verifier::external_body]
pub(crate) fn member<'a>(v: &'a serde_json::Value, key: &str) -> (r: Option<&'a serde_json::Value>)
    ensures
        match json_content(*v) {
            Json::Object(members) => if members.contains_key(key@) {
                r matches Some(found) && json_content(*found) == members[key@]
            } else {
                r is None
            },
            _ => r is None,
        },
{
    v.get(key)
}

/// `serde_json::Value::as_str` returns the text of a string value and `None`
/// for every other variant.
pub assume_specification[ serde_json::Value::as_str ](v: &serde_json::Value) -> (r: Option<&str>)
    ensures
        match json_content(*v) {
            Json::Text(text) => r matches Some(found) && found@ == text,
            _ => r is None,
        },
;

/// `serde_json::Value::as_array` returns the vector inside an array value and
/// `None` for every other variant.
pub assume_specification[ serde_json::Value::as_array ](v: &serde_json::Value) -> (r: Option<
    &Vec<serde_json::Value>,
>)
    ensures
        match json_content(*v) {
            Json::Array(items) => r matches Some(found) && found@.len() == items.len()
                && forall|i: int|
                0 <= i < items.len() ==> json_content(#[trigger] found@[i]) == items[i],
            _ => r is None,
        },
;

/// Calls `serde_json::to_string` on a slice of strings and drops the error.
/// Claims that the call succeeds, and that the text is the one named by
/// [`json_text_of_strings`]. It succeeds because the serialiser writes into a
/// `Vec<u8>`, and every error on the path of a sequence of strings is an
/// error of the writer.
#[verifier::external_body]
pub(crate) fn strings_to_json(items: &[String]) -> (r: Option<String>)
    ensures
        r is Some,
        r matches Some(text) ==> text@ == json_text_of_strings(texts(items@)),
{
    serde_json::to_string(items).ok()
}

/// The text of member `key` of an object, where there is such a member and
/// it is a string.
pub open spec fn text_member(doc: Json, key: Seq<char>) -> Option<Seq<char>> {
    match doc {
        Json::Object(members) => if members.contains_key(key) {
            match members[key] {
                Json::Text(text) => Some(text),
                _ => None,
            }
        } else {
            None
        },
        _ => None,
    }
}

/// Reads the string under `key` of an object.
pub fn read_text_member(v: &serde_json::Value, key: &str) -> (r: Option<String>)
    ensures
        r is Some <==> text_member(json_content(*v), key@) is Some,
        r matches Some(found) ==> Some(found@) == text_member(json_content(*v), key@),
{
    match member(v, key) {
        None => None,
        Some(found) => match found.as_str() {
            None => None,
            Some(text) => Some(text.to_owned()),
        },
    }
}

} // verus!
