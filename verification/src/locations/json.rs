//! What this crate takes on trust of `serde_json`.
//!
//! A `serde_json::Value` is opaque here. Its contracts speak of it through
//! three names: the members that it has as an object, whether it is null, and
//! the value that a text parses to.

use vstd::prelude::*;

verus! {

/// `serde_json::Value`, any JSON value. Nothing inside it is visible here.
#[verifier::external_type_specification]
#[verifier::external_body]
pub struct ExValue(serde_json::Value);

/// `serde_json::Error`, why a text is not JSON. Nothing inside it is visible here.
#[verifier::external_type_specification]
#[verifier::external_body]
pub struct ExError(serde_json::Error);

/// The members of a JSON object by their keys; `None` for a value that is no object.
pub uninterp spec fn json_object(value: serde_json::Value) -> Option<
    Map<Seq<char>, serde_json::Value>,
>;

/// The value is JSON `null`.
pub uninterp spec fn json_is_null(value: serde_json::Value) -> bool;

/// The value that a JSON text stands for; `None` for a text that is not JSON.
pub uninterp spec fn json_parse(text: Seq<char>) -> Option<serde_json::Value>;

/// The members of a value as `serde_json` sees them when it is asked to write
/// one: those of an object, and none otherwise.
pub open spec fn members(value: serde_json::Value) -> Map<Seq<char>, serde_json::Value> {
    match json_object(value) {
        Some(m) => m,
        None => Map::empty(),
    }
}

/// A member can be written into the value: it is an object, or null.
pub open spec fn takes_members(value: serde_json::Value) -> bool {
    json_object(value) is Some || json_is_null(value)
}

/// `serde_json::Value::is_object`: true exactly for the `Object` variant.
pub assume_specification[ serde_json::Value::is_object ](value: &serde_json::Value) -> (r: bool)
    ensures
        r == (json_object(*value) is Some),
;

/// `serde_json::Value::is_null`: true exactly for the `Null` variant.
pub assume_specification[ serde_json::Value::is_null ](value: &serde_json::Value) -> (r: bool)
    ensures
        r == json_is_null(*value),
;

/// `serde_json::from_str` for a `Value`: the value that the text stands for, or
/// an error for a text that is not one JSON value. The parser reads the text
/// alone, so the outcome is named by [`json_parse`].
#[verifier::external_body]
pub(crate) fn parse(text: &str) -> (res: Result<serde_json::Value, serde_json::Error>)
    ensures
        match res {
            Ok(value) => json_parse(text@) == Some(value),
            Err(_) => json_parse(text@) is None,
        },
{
    serde_json::from_str::<serde_json::Value>(text)
}

/// Assignment through `serde_json::Value`'s `IndexMut<&str>`, `target[key] = member`.
/// On an object it replaces the member of that key or adds it, and leaves the
/// other members alone. A null target first becomes an empty object. Any other
/// target makes `serde_json` panic, so it is excluded.
#[verifier::external_body]
pub(crate) fn set_member(target: &mut serde_json::Value, key: &str, member: serde_json::Value)
    requires
        takes_members(*old(target)),
    ensures
        json_object(*final(target)) == Some(members(*old(target)).insert(key@, member)),
{
    target[key] = member;
}

} // verus!
