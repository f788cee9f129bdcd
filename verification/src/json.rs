//! A plain model of JSON documents, parsed by serde_json.
use vstd::prelude::*;
use crate::text::str_eq;

verus! {

/// serde_json's value type, carried opaque.
#[verifier::external_type_specification]
#[verifier::external_body]
pub struct ExSerdeJsonValue(serde_json::Value);

/// A JSON value as the library reads it.
#[derive(Debug)]
pub enum JsonValue {
    Null,
    Bool(bool),
    /// A number; holds its value when it is a non-negative integer that fits
    /// in `u64` (what `serde_json::Number::as_u64` gives), `None` otherwise.
    Number(Option<u64>),
    String(String),
    Array(Vec<JsonValue>),
    /// An object's members in the order serde_json's map yields them (one per key).
    Object(Vec<(String, JsonValue)>),
}

/// The document that `serde_json::from_str::<serde_json::Value>` parses from
/// `text`, converted member by member; `None` when it reports an error.
pub uninterp spec fn serde_json_parse(text: Seq<char>) -> Option<JsonValue>;

/// Calls `serde_json::from_str::<serde_json::Value>` and converts the value.
#[verifier::external_body]
pub(crate) fn parse_json(text: &str) -> (r: Option<JsonValue>)
    ensures
        r == serde_json_parse(text@),
{
    match serde_json::from_str::<serde_json::Value>(text) {
        Ok(v) => Some(json_from_serde(v)),
        Err(_) => None,
    }
}

/// Converts a serde_json value, variant by variant.
#[verifier::external_body]
pub(crate) fn json_from_serde(v: serde_json::Value) -> JsonValue {
    match v {
        serde_json::Value::Null => JsonValue::Null,
        serde_json::Value::Bool(b) => JsonValue::Bool(b),
        serde_json::Value::Number(n) => JsonValue::Number(n.as_u64()),
        serde_json::Value::String(s) => JsonValue::String(s),
        serde_json::Value::Array(a) => JsonValue::Array(a.into_iter().map(json_from_serde).collect()),
        serde_json::Value::Object(m) => JsonValue::Object(
            m.into_iter().map(|(k, x)| (k, json_from_serde(x))).collect(),
        ),
    }
}

/// The member of an object named `key` (the first with that name); `None`
/// for a missing member or a value that is not an object, where serde_json's
/// `value[key]` gives `Null`.
pub open spec fn json_field(v: JsonValue, key: Seq<char>) -> Option<JsonValue> {
    match v {
        JsonValue::Object(members) => first_member(members@, key),
        _ => None,
    }
}

/// The value of the first member named `key`.
pub open spec fn first_member(members: Seq<(String, JsonValue)>, key: Seq<char>) -> Option<JsonValue>
    decreases members.len(),
{
    if members.len() == 0 {
        None
    } else if members[0].0@ == key {
        Some(members[0].1)
    } else {
        first_member(members.drop_first(), key)
    }
}

/// The member of an object named `key`, if any.
pub fn get_field<'a>(v: &'a JsonValue, key: &str) -> (r: Option<&'a JsonValue>)
    ensures
        match r {
            Some(x) => json_field(*v, key@) == Some(*x),
            None => json_field(*v, key@) is None,
        },
{
    match v {
        JsonValue::Object(members) => {
            let mut i: usize = 0;
            assert(members@.skip(0) =~= members@);
            while i < members.len()
                invariant
                    i <= members.len(),
                    *v == JsonValue::Object(*members),
                    first_member(members@, key@) == first_member(members@.skip(i as int), key@),
                decreases members.len() - i,
            {
                assert(members@.skip(i as int).drop_first() =~= members@.skip(i + 1));
                assert(members@.skip(i as int)[0] == members@[i as int]);
                if str_eq(members[i].0.as_str(), key) {
                    return Some(&members[i].1);
                }
                i = i + 1;
            }
            None
        },
        _ => None,
    }
}

/// Moves the member named `key` out of `v`; `None` for a missing member or a
/// value that is not an object.
pub fn into_field(v: JsonValue, key: &str) -> (r: Option<JsonValue>)
    ensures
        r == json_field(v, key@),
{
    let ghost answer = json_field(v, key@);
    match v {
        JsonValue::Object(mut members) => {
            let ghost orig = members@;
            let mut i: usize = 0;
            assert(answer == first_member(orig, key@));
            assert(orig.skip(0) =~= orig);
            while i < members.len()
                invariant
                    i <= members.len(),
                    members@ == orig,
                    answer == json_field(v, key@),
                    answer == first_member(orig.skip(i as int), key@),
                decreases members.len() - i,
            {
                assert(orig.skip(i as int).drop_first() =~= orig.skip(i + 1));
                assert(orig.skip(i as int)[0] == orig[i as int]);
                if str_eq(members[i].0.as_str(), key) {
                    let (_, x) = members.remove(i);
                    return Some(x);
                }
                i = i + 1;
            }
            None
        },
        _ => None,
    }
}

/// The text of a JSON string value (`as_str`).
pub open spec fn json_str(v: Option<JsonValue>) -> Option<Seq<char>> {
    match v {
        Some(JsonValue::String(s)) => Some(s@),
        _ => None,
    }
}

/// The text of a string value, if it is one.
pub fn as_str(v: Option<&JsonValue>) -> (r: Option<&String>)
    ensures
        match r {
            Some(s) => json_str(match v { Some(x) => Some(*x), None => None }) == Some(s@),
            None => json_str(match v { Some(x) => Some(*x), None => None }) is None,
        },
{
    match v {
        Some(JsonValue::String(s)) => Some(s),
        _ => None,
    }
}

} // verus!
