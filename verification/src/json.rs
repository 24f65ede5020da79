//! Reading a JSON object and the text members in it, by way of serde_json.
//!
//! The log prints each commit as one JSON object on a line of its own. Decoding
//! the JSON is serde_json's work. This module states what the rest of the crate
//! relies on from it and offers the two verified operations built on top:
//! asking an object for a member that must be text, and saying what a member
//! lookup means for a record.

use vstd::prelude::*;
use crate::error::HistoryError;

verus! {

#[verifier::external_type_specification]
#[verifier::external_body]
pub struct ExJsonValue(serde_json::Value);

#[verifier::external_type_specification]
#[verifier::external_body]
#[verifier::reject_recursive_types(K)]
#[verifier::reject_recursive_types(V)]
pub struct ExJsonObject<K, V>(serde_json::Map<K, V>);

#[verifier::external_type_specification]
#[verifier::external_body]
pub struct ExJsonFailure(serde_json::Error);

/// What a JSON object holds, as far as this crate reads it: each member's name
/// with the member's text where the member is a JSON string, and with `None`
/// where it is any other JSON value.
pub uninterp spec fn members(obj: serde_json::Map<String, serde_json::Value>) -> Map<
    Seq<char>,
    Option<Seq<char>>,
>;

/// The members of the JSON object that a text spells, or `None` where the text
/// is not exactly one JSON object.
///
/// This is `serde_json::from_str::<serde_json::Map<String, serde_json::Value>>`.
/// White space around the object is allowed, anything else around it is not.
/// Of a member name that occurs twice the last occurrence counts.
pub uninterp spec fn json_object(text: Seq<char>) -> Option<Map<Seq<char>, Option<Seq<char>>>>;

/// Calls `serde_json::from_str` for a `serde_json::Map<String, serde_json::Value>`.
///
/// Trusted: the outcome depends on the text alone; on success the object holds
/// `json_object` of the text, and on failure `json_object` of the text is `None`.
#[verifier::external_body]
pub(crate) fn parse_object(text: &str) -> (r: Result<
    serde_json::Map<String, serde_json::Value>,
    serde_json::Error,
>)
    ensures
        match r {
            Ok(obj) => json_object(text@) == Some(members(obj)),
            Err(_) => json_object(text@) is None,
        },
{
    serde_json::from_str::<serde_json::Map<String, serde_json::Value>>(text)
}

/// Calls `serde_json::Map::get` and hands the member out as `Value::as_str`
/// sees it.
///
/// Trusted: the outer `Option` says whether the object has a member of that
/// name, the inner one holds a copy of its text where it is a JSON string.
#[verifier::external_body]
pub(crate) fn member_text(obj: &serde_json::Map<String, serde_json::Value>, name: &str) -> (r:
    Option<Option<String>>)
    ensures
        r is Some <==> members(*obj).contains_key(name@),
        r matches Some(member) ==> member_view(member) == members(*obj)[name@],
{
    match obj.get(name) {
        Some(value) => Some(value.as_str().map(|text| text.to_owned())),
        None => None,
    }
}

/// A looked-up member with its text as a sequence of characters.
pub open spec fn member_view(member: Option<String>) -> Option<Seq<char>> {
    match member {
        Some(text) => Some(text@),
        None => None,
    }
}

/// The text of the member of that name, where the object has such a member and
/// it is a JSON string.
pub open spec fn text_member(members: Map<Seq<char>, Option<Seq<char>>>, name: Seq<char>) -> Option<
    Seq<char>,
> {
    if members.contains_key(name) {
        members[name]
    } else {
        None
    }
}

/// Insists on a member that a record cannot do without: it has to be there,
/// and it has to be text. `lookup` is what asking the object gave: `None` for
/// no such member, `Some(None)` for a member that is not a JSON string.
pub fn required_text(lookup: Option<Option<String>>) -> (r: Result<String, HistoryError>)
    ensures
        match lookup {
            Some(Some(text)) => r == Ok::<String, HistoryError>(text),
            _ => r matches Err(e) && e.is_parse_failure(),
        },
{
    match lookup {
        Some(Some(text)) => Ok(text),
        _ => Err(HistoryError::parse_failure()),
    }
}

/// Reads a required text member out of a decoded object.
pub fn text_field(obj: &serde_json::Map<String, serde_json::Value>, name: &str) -> (r: Result<
    String,
    HistoryError,
>)
    ensures
        match r {
            Ok(text) => text_member(members(*obj), name@) == Some(text@),
            Err(e) => text_member(members(*obj), name@) is None && e.is_parse_failure(),
        },
{
    required_text(member_text(obj, name))
}

} // verus!
