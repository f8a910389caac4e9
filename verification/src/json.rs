//! JSON documents as the store sees them.
//!
//! Documents are values of `serde_json::Value`. The verifier cannot look
//! inside one, so this module describes what a value holds by a mathematical
//! model, [`Json`], and states the behaviour of the few `serde_json` functions
//! that the store calls over that model. Those statements are taken from the
//! source of `serde_json` with its default features (objects are maps sorted
//! by key, numbers are a `u64`, an `i64` or a finite double) and are believed,
//! not proved.

use vstd::prelude::*;

verus! {

/// `serde_json::Value`, a JSON document. It is declared so that it can be
/// named in signatures; what is inside stays hidden.
#[verifier::external_type_specification]
#[verifier::external_body]
pub struct ExValue(serde_json::Value);

/// `serde_json::Number`, a JSON number. It is declared so that the model of
/// a document can hold one; what is inside stays hidden.
#[verifier::external_type_specification]
#[verifier::external_body]
pub struct ExNumber(serde_json::Number);

/// The content of a JSON document.
///
/// Each variant stands for the variant of `serde_json::Value` of the same
/// meaning: a string is the sequence of its characters, an array the sequence
/// of its elements, an object the map from its keys to its members.
pub enum Json {
    Null,
    Bool(bool),
    Number(serde_json::Number),
    Str(Seq<char>),
    Array(Seq<Json>),
    Object(Map<Seq<char>, Json>),
}

/// What a `serde_json::Value` holds.
pub uninterp spec fn json_of(v: serde_json::Value) -> Json;

/// The bit pattern of the double that `Number::as_f64` reads a number as.
pub uninterp spec fn double_bits(n: serde_json::Number) -> u64;

/// What `serde_json::from_str` makes of a text: the document it reads, or the
/// message of the error with which it refuses the text.
pub uninterp spec fn parsed(text: Seq<char>) -> Result<Json, Seq<char>>;

/// What `serde_json::to_string_pretty` makes of a document: its indented
/// text, or the message of the error with which it fails.
pub uninterp spec fn rendered(doc: Json) -> Result<Seq<char>, Seq<char>>;

/// The member of an object under a key; `None` for a missing key and for a
/// document that is no object.
pub open spec fn member_of(doc: Json, key: Seq<char>) -> Option<Json> {
    match doc {
        Json::Object(members) => if members.contains_key(key) {
            Some(members[key])
        } else {
            None
        },
        _ => None,
    }
}

/// The string under a key of an object; `None` where the key is missing, the
/// member is no string, or the document is no object.
pub open spec fn text_member_of(doc: Json, key: Seq<char>) -> Option<Seq<char>> {
    match member_of(doc, key) {
        Some(Json::Str(text)) => Some(text),
        _ => None,
    }
}

/// An object with one member set, whether the key was there or not. A
/// document that is no object is left as it is.
pub open spec fn with_member(doc: Json, key: Seq<char>, item: Json) -> Json {
    match doc {
        Json::Object(members) => Json::Object(members.insert(key, item)),
        _ => doc,
    }
}

/// The double that stands for a document when it is read as a number, as a
/// bit pattern; `None` for a document that is no number.
pub open spec fn reading_of(doc: Json) -> Option<u64> {
    match doc {
        Json::Number(n) => Some(double_bits(n)),
        _ => None,
    }
}

/// `serde_json::from_str` for a `Value`, with the error turned into its
/// message. The result is named by [`parsed`]: the same text always reads as
/// the same document or fails with the same message.
#[verifier::external_body]
pub(crate) fn parse_text(text: &str) -> (res: Result<serde_json::Value, String>)
    ensures
        match res {
            Ok(v) => parsed(text@) == Ok::<Json, Seq<char>>(json_of(v)),
            Err(message) => parsed(text@) == Err::<Json, Seq<char>>(message@),
        },
{
    match serde_json::from_str::<serde_json::Value>(text) {
        Ok(v) => Ok(v),
        Err(e) => Err(e.to_string()),
    }
}

/// `serde_json::to_string_pretty` on a `Value`, with the error turned into
/// its message. The result is named by [`rendered`]: it depends on what the
/// value holds and on nothing else.
#[verifier::external_body]
pub(crate) fn render_pretty(v: &serde_json::Value) -> (res: Result<String, String>)
    ensures
        match res {
            Ok(text) => rendered(json_of(*v)) == Ok::<Seq<char>, Seq<char>>(text@),
            Err(message) => rendered(json_of(*v)) == Err::<Seq<char>, Seq<char>>(message@),
        },
{
    match serde_json::to_string_pretty(v) {
        Ok(text) => Ok(text),
        Err(e) => Err(e.to_string()),
    }
}

/// `Value::get` with a string key: the member of an object under that key.
/// In the source, a string index looks the key up in the map of an object and
/// gives `None` for every other kind of value.
#[verifier::external_body]
pub(crate) fn member<'a>(v: &'a serde_json::Value, key: &str) -> (res: Option<&'a serde_json::Value>)
    ensures
        match res {
            Some(found) => member_of(json_of(*v), key@) == Some(json_of(*found)),
            None => member_of(json_of(*v), key@) is None,
        },
{
    v.get(key)
}

/// `Value::as_str`: the text of a string, `None` for every other kind of
/// value.
pub assume_specification<'a>[ serde_json::Value::as_str ](v: &'a serde_json::Value) -> (res:
    Option<&'a str>)
    ensures
        match res {
            Some(text) => json_of(*v) == Json::Str(text@),
            None => !(json_of(*v) is Str),
        },
;

/// `Value::is_object`: whether the value is an object.
pub assume_specification[ serde_json::Value::is_object ](v: &serde_json::Value) -> (res: bool)
    ensures
        res == (json_of(*v) is Object),
;

/// `Value::as_f64`, handed out as the bit pattern of the double. In the
/// source a number of any kind is read as a double, and every other kind of
/// value gives `None`.
#[verifier::external_body]
pub(crate) fn double_reading(v: &serde_json::Value) -> (res: Option<u64>)
    ensures
        match json_of(*v) {
            Json::Number(n) => res == Some(double_bits(n)),
            _ => res is None,
        },
{
    v.as_f64().map(|double| double.to_bits())
}

/// `Value::String`: the document that is one string.
#[verifier::external_body]
pub(crate) fn text_value(text: String) -> (res: serde_json::Value)
    ensures
        json_of(res) == Json::Str(text@),
{
    serde_json::Value::String(text)
}

/// `Map::insert` on the map of an object, reached through
/// `Value::as_object_mut`: the member under the key is set, replacing the one
/// that was there, and all other members stay.
#[verifier::external_body]
pub(crate) fn set_member(v: &mut serde_json::Value, key: String, item: serde_json::Value)
    requires
        json_of(*old(v)) is Object,
    ensures
        json_of(*final(v)) == with_member(json_of(*old(v)), key@, json_of(item)),
{
    if let Some(members) = v.as_object_mut() {
        members.insert(key, item);
    }
}

} // verus!
