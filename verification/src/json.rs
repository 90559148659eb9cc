//! JSON values as far as the catalog reads them: objects, their members,
//! strings and null. Reading a text as JSON is left to `serde_json`;
//! contracts speak of the model of a value.

use vstd::prelude::*;
use crate::text::text_view;

verus! {

/// `serde_json::Value`, a JSON value.
#[verifier::external_type_specification]
#[verifier::external_body]
pub struct ExJsonValue(serde_json::Value);

/// `serde_json::Error`, why a text is no JSON value.
#[verifier::external_type_specification]
#[verifier::external_body]
pub struct ExJsonError(serde_json::Error);

/// What a JSON value is.
pub enum Json {
    Null,
    /// A string.
    Text(Seq<char>),
    /// An object, by key.
    Object(Map<Seq<char>, Json>),
    /// A boolean, a number or an array.
    Other(serde_json::Value),
}

/// What the value `v` is.
pub uninterp spec fn json_model(v: serde_json::Value) -> Json;

/// The value that `text` is read as, where it is well-formed JSON.
pub uninterp spec fn parsed_json(text: Seq<char>) -> Option<Json>;

/// Calls `serde_json::from_str` for a `serde_json::Value`. The outcome is
/// a function of the text alone; the contract names it `parsed_json`.
#[verifier::external_body]
pub(crate) fn parse_json(text: &str) -> (r: Result<serde_json::Value, serde_json::Error>)
    ensures
        match r {
            Ok(v) => parsed_json(text@) == Some(json_model(v)),
            Err(_) => parsed_json(text@) is None,
        },
{
    serde_json::from_str::<serde_json::Value>(text)
}

/// The member of `v` under `key`: what an object holds there, and nothing
/// for a value that is no object.
pub open spec fn member_of(v: Json, key: Seq<char>) -> Option<Json> {
    match v {
        Json::Object(members) => if members.contains_key(key) {
            Some(members[key])
        } else {
            None
        },
        _ => None,
    }
}

/// Calls `serde_json::Value::get` with a string key, which finds a member
/// only in an object that has the key.
#[verifier::external_body]
pub(crate) fn member<'a>(v: &'a serde_json::Value, key: &str) -> (r: Option<&'a serde_json::Value>)
    ensures
        r.is_some() == member_of(json_model(*v), key@).is_some(),
        r matches Some(m) ==> member_of(json_model(*v), key@) == Some(json_model(*m)),
{
    v.get(key)
}

/// Calls `serde_json::Value::as_str`: the text of a value that is a
/// string.
#[verifier::external_body]
pub(crate) fn as_text<'a>(v: &'a serde_json::Value) -> (r: Option<&'a str>)
    ensures
        r.is_some() == (json_model(*v) is Text),
        r matches Some(s) ==> json_model(*v) == Json::Text(s@),
{
    v.as_str()
}

/// Calls `serde_json::Value::is_null`.
#[verifier::external_body]
pub(crate) fn is_null(v: &serde_json::Value) -> (r: bool)
    ensures
        r == (json_model(*v) is Null),
{
    v.is_null()
}

/// Calls `Clone::clone` of `serde_json::Value`: the copy is what the
/// value is.
#[verifier::external_body]
pub(crate) fn clone_json(v: &serde_json::Value) -> (r: serde_json::Value)
    ensures
        json_model(r) == json_model(*v),
{
    v.clone()
}

/// The text that `v` holds under `key`, where it is an object with a
/// string there.
pub open spec fn text_at(v: Json, key: Seq<char>) -> Option<Seq<char>> {
    match member_of(v, key) {
        Some(Json::Text(t)) => Some(t),
        _ => None,
    }
}

/// The text that `v` holds under `key`.
pub fn text_member(v: &serde_json::Value, key: &str) -> (r: Option<String>)
    ensures
        text_view(r) == text_at(json_model(*v), key@),
{
    match member(v, key) {
        Some(m) => match as_text(m) {
            Some(t) => Some(t.to_owned()),
            None => None,
        },
        None => None,
    }
}

/// The text that `v` may hold under `key`: `Some(None)` where it has no
/// such member or null there, the text where it has a string there, and
/// `None` where it has something else.
pub open spec fn optional_text_at(v: Json, key: Seq<char>) -> Option<Option<Seq<char>>> {
    match member_of(v, key) {
        None => Some(None),
        Some(Json::Null) => Some(None),
        Some(Json::Text(t)) => Some(Some(t)),
        Some(_) => None,
    }
}

/// The text that `v` may hold under `key`.
pub fn optional_text_member(v: &serde_json::Value, key: &str) -> (r: Option<Option<String>>)
    ensures
        r.is_some() == optional_text_at(json_model(*v), key@).is_some(),
        r matches Some(t) ==> optional_text_at(json_model(*v), key@) == Some(text_view(t)),
{
    match member(v, key) {
        Some(m) => if is_null(m) {
            Some(None)
        } else {
            match as_text(m) {
                Some(t) => Some(Some(t.to_owned())),
                None => None,
            }
        },
        None => Some(None),
    }
}

} // verus!
