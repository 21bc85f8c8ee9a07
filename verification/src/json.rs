//! JSON documents, as far as the bridge reads and writes them.
//!
//! Parsing and string quoting are the work of `serde_json`, with numbers kept
//! at arbitrary precision. This module states what the bridge relies on: a
//! parsed document is looked at through the members of its top-level object,
//! each of which is a scalar or something composite that the bridge never
//! reads.

use vstd::prelude::*;
use crate::decimal::{short_of, unsigned_of};

verus! {

#[verifier::external_type_specification]
#[verifier::external_body]
pub struct ExValue(serde_json::Value);

#[verifier::external_type_specification]
#[verifier::external_body]
pub struct ExError(serde_json::Error);

/// What one member of a JSON object holds. A number is kept as the text of
/// its literal, so that no digit is lost; an array or an object is only known
/// to be composite.
pub enum Member {
    Null,
    Flag(bool),
    Number(Seq<char>),
    Text(Seq<char>),
    Composite,
}

/// The members of a parsed document by name. A document that is not an
/// object has none.
pub uninterp spec fn members_of(doc: serde_json::Value) -> Map<Seq<char>, Member>;

/// What a parsed value holds, seen as the member of an object.
pub uninterp spec fn member_of(value: serde_json::Value) -> Member;

/// The members of the document that `text` is the JSON notation of, or
/// `None` where `text` is not JSON.
pub uninterp spec fn parsed_members(text: Seq<char>) -> Option<Map<Seq<char>, Member>>;

/// The JSON string literal for `text`: quoted and escaped.
pub uninterp spec fn json_quoted(text: Seq<char>) -> Seq<char>;

/// The text of the member `name`, if there is one and it is a string.
pub open spec fn text_at(members: Map<Seq<char>, Member>, name: Seq<char>) -> Option<Seq<char>> {
    if members.contains_key(name) {
        match members[name] {
            Member::Text(t) => Some(t),
            _ => None,
        }
    } else {
        None
    }
}

/// The value of the member `name`, if there is one and it is a boolean.
pub open spec fn flag_at(members: Map<Seq<char>, Member>, name: Seq<char>) -> Option<bool> {
    if members.contains_key(name) {
        match members[name] {
            Member::Flag(b) => Some(b),
            _ => None,
        }
    } else {
        None
    }
}

/// The literal of the member `name`, if there is one and it is a number.
pub open spec fn number_at(members: Map<Seq<char>, Member>, name: Seq<char>) -> Option<Seq<char>> {
    if members.contains_key(name) {
        match members[name] {
            Member::Number(t) => Some(t),
            _ => None,
        }
    } else {
        None
    }
}

/// The member `name` as an unsigned 128-bit integer: it is a number whose
/// literal is plain decimal digits and fits.
pub open spec fn unsigned_at(members: Map<Seq<char>, Member>, name: Seq<char>) -> Option<u128> {
    match number_at(members, name) {
        Some(t) => unsigned_of(t),
        None => None,
    }
}

/// The member `name` as a signed 16-bit integer.
pub open spec fn short_at(members: Map<Seq<char>, Member>, name: Seq<char>) -> Option<i16> {
    match number_at(members, name) {
        Some(t) => short_of(t),
        None => None,
    }
}

/// Parses `text` with `serde_json::from_str` into a `serde_json::Value`.
///
/// Trusted: parsing depends on the text alone, so the members of the result
/// are those that `parsed_members` names for the text, and the call fails
/// exactly where `parsed_members` gives `None`.
#[verifier::external_body]
pub(crate) fn parse_document(text: &str) -> (r: Result<serde_json::Value, serde_json::Error>)
    ensures
        match r {
            Ok(doc) => parsed_members(text@) == Some(members_of(doc)),
            Err(_) => parsed_members(text@) is None,
        },
{
    serde_json::from_str::<serde_json::Value>(text)
}

/// Looks the member `name` up with `serde_json::Value::get`.
///
/// Trusted: `get` finds a member only in an object and only under its exact
/// name, and hands out what the object holds under it.
#[verifier::external_body]
pub(crate) fn member<'a>(doc: &'a serde_json::Value, name: &str) -> (r: Option<
    &'a serde_json::Value,
>)
    ensures
        match r {
            Some(value) => members_of(*doc).contains_key(name@) && members_of(*doc)[name@]
                == member_of(*value),
            None => !members_of(*doc).contains_key(name@),
        },
{
    doc.get(name)
}

/// Hands a value out as a string with `serde_json::Value::as_str`.
///
/// Trusted: `as_str` gives the characters of a string and nothing for any
/// other value.
#[verifier::external_body]
pub(crate) fn as_text<'a>(value: &'a serde_json::Value) -> (r: Option<&'a str>)
    ensures
        match r {
            Some(t) => member_of(*value) == Member::Text(t@),
            None => !(member_of(*value) is Text),
        },
{
    value.as_str()
}

/// Hands a value out as a boolean with `serde_json::Value::as_bool`.
///
/// Trusted: `as_bool` gives the value of a boolean and nothing for any other
/// value.
#[verifier::external_body]
pub(crate) fn as_flag(value: &serde_json::Value) -> (r: Option<bool>)
    ensures
        match r {
            Some(b) => member_of(*value) == Member::Flag(b),
            None => !(member_of(*value) is Flag),
        },
{
    value.as_bool()
}

/// Hands out the literal of a number with `serde_json::Value::as_number`,
/// as text by `Number::as_str`.
///
/// Trusted: `as_number` gives a number and nothing for any other value, and
/// `as_str` gives the number's literal as `serde_json` keeps it, which for an
/// integer is the parsed text digit for digit.
#[verifier::external_body]
pub(crate) fn as_number<'a>(value: &'a serde_json::Value) -> (r: Option<&'a str>)
    ensures
        match r {
            Some(t) => member_of(*value) == Member::Number(t@),
            None => !(member_of(*value) is Number),
        },
{
    value.as_number().map(serde_json::Number::as_str)
}

/// Writes `text` as a JSON string literal with `serde_json::to_string`.
///
/// Trusted: the literal depends on the text alone; `json_quoted` names it.
/// Serialising a string into memory does not fail.
#[verifier::external_body]
pub(crate) fn quote(text: &str) -> (r: String)
    ensures
        r@ == json_quoted(text@),
{
    match serde_json::to_string(text) {
        Ok(literal) => literal,
        Err(_) => String::new(),
    }
}

} // verus!
