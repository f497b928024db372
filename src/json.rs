//! A JSON document as plain values, with schema-tolerant field access.
use vstd::prelude::*;

use crate::text::same_text;

verus! {

/// A parsed JSON value. Numbers keep their canonical text; an object keeps
/// its members in the order the parser gives them.
pub enum Json {
    Null,
    Bool(bool),
    Number(String),
    Str(String),
    Array(Vec<Json>),
    Object(Vec<(String, Json)>),
}

/// `serde_json::Value`, carried through opaque.
#[verifier::external_type_specification]
#[verifier::external_body]
pub struct ExJsonValue(serde_json::Value);

/// `serde_json::Error`, carried through opaque.
#[verifier::external_type_specification]
#[verifier::external_body]
pub struct ExJsonError(serde_json::Error);

/// The value that `serde_json` parses out of `bytes`, or `None` where they
/// are not a JSON document.
pub uninterp spec fn json_document(bytes: Seq<u8>) -> Option<Json>;

/// Relies on `serde_json::from_slice` into `serde_json::Value`: the value
/// parsed from the bytes, or an error where parsing fails.
#[verifier::external_body]
pub(crate) fn parse_json(bytes: &[u8]) -> (r: Result<Json, serde_json::Error>)
    ensures
        r is Ok <==> json_document(bytes@) is Some,
        r is Ok ==> Some(r->Ok_0) == json_document(bytes@),
{
    serde_json::from_slice::<serde_json::Value>(bytes).map(json_from_value)
}

/// Relies on the variants of `serde_json::Value`: moves a parsed value into
/// `Json`, variant for variant (a number as its text).
#[verifier::external_body]
fn json_from_value(v: serde_json::Value) -> Json {
    match v {
        serde_json::Value::Null => Json::Null,
        serde_json::Value::Bool(b) => Json::Bool(b),
        serde_json::Value::Number(n) => Json::Number(n.to_string()),
        serde_json::Value::String(s) => Json::Str(s),
        serde_json::Value::Array(a) => Json::Array(a.into_iter().map(json_from_value).collect()),
        serde_json::Value::Object(m) => Json::Object(
            m.into_iter().map(|(k, v)| (k, json_from_value(v))).collect(),
        ),
    }
}

/// The first member named `key` among `members[i..]`.
pub open spec fn member_from(members: Seq<(String, Json)>, key: Seq<char>, i: int) -> Option<Json>
    decreases members.len() - i,
{
    if i < 0 || i >= members.len() {
        None
    } else if members[i].0@ == key {
        Some(members[i].1)
    } else {
        member_from(members, key, i + 1)
    }
}

/// The member `key` of `j`, where `j` is an object that has one.
pub open spec fn member(j: Json, key: Seq<char>) -> Option<Json> {
    match j {
        Json::Object(members) => member_from(members@, key, 0),
        _ => None,
    }
}

/// The text held by `j`, where it is a string.
pub open spec fn as_text(j: Option<Json>) -> Option<Seq<char>> {
    match j {
        Some(Json::Str(s)) => Some(s@),
        _ => None,
    }
}

/// The elements of `j`, where it is an array.
pub open spec fn as_items(j: Option<Json>) -> Option<Seq<Json>> {
    match j {
        Some(Json::Array(a)) => Some(a@),
        _ => None,
    }
}

/// `j` is the boolean `true`.
pub open spec fn is_true(j: Option<Json>) -> bool {
    j == Some(Json::Bool(true))
}

impl Json {
    /// The member `key` of this value, where it is an object that has one.
    pub fn get(&self, key: &str) -> (r: Option<&Json>)
        ensures
            r is Some <==> member(*self, key@) is Some,
            r is Some ==> *r->0 == member(*self, key@)->0,
    {
        match self {
            Json::Object(members) => {
                let mut i: usize = 0;
                while i < members.len()
                    invariant
                        i <= members@.len(),
                        member(*self, key@) == member_from(members@, key@, 0),
                        member_from(members@, key@, 0) == member_from(members@, key@, i as int),
                    decreases members.len() - i,
                {
                    let entry = &members[i];
                    if same_text(entry.0.as_str(), key) {
                        assert(member_from(members@, key@, i as int) == Some(entry.1));
                        return Some(&entry.1);
                    }
                    i = i + 1;
                }
                None
            },
            _ => None,
        }
    }

    /// The text of this value, where it is a string.
    pub fn text(&self) -> (r: Option<&String>)
        ensures
            r is Some <==> as_text(Some(*self)) is Some,
            r is Some ==> r->0@ == as_text(Some(*self))->0,
    {
        match self {
            Json::Str(s) => Some(s),
            _ => None,
        }
    }

    /// The elements of this value, where it is an array.
    pub fn items(&self) -> (r: Option<&Vec<Json>>)
        ensures
            r is Some <==> as_items(Some(*self)) is Some,
            r is Some ==> r->0@ == as_items(Some(*self))->0,
    {
        match self {
            Json::Array(a) => Some(a),
            _ => None,
        }
    }

    /// Whether this value is the boolean `true`.
    pub fn is_true(&self) -> (r: bool)
        ensures
            r == is_true(Some(*self)),
    {
        match self {
            Json::Bool(b) => *b,
            _ => false,
        }
    }
}

} // verus!
