//! JSON documents as plain values, read and written by `serde_json`.

use vstd::prelude::*;
use crate::text::str_eq;
use serde_json::Value;

verus! {

/// A JSON number: an integer where it is one, else its text.
#[derive(Debug, Clone, PartialEq, Eq)]
pub enum JsonNumber {
    /// A non-negative integer that fits 64 bits.
    Unsigned(u64),
    /// A negative integer that fits 64 bits.
    Signed(i64),
    /// Any other number, as JSON writes it.
    Other(String),
}

/// A JSON value. An object that was read from text has its members in the
/// order of their names, and no name twice.
#[derive(Debug)]
pub enum Json {
    Null,
    Bool(bool),
    Number(JsonNumber),
    Str(String),
    Array(Vec<Json>),
    Object(Vec<(String, Json)>),
}

/// `serde_json::Error`, why bytes are no JSON.
#[verifier::external_type_specification]
#[verifier::external_body]
pub struct ExJsonError(serde_json::Error);

/// `serde_json::Value`, a JSON value as `serde_json` holds it.
#[verifier::external_type_specification]
#[verifier::external_body]
pub struct ExJsonValue(serde_json::Value);

/// The document that `serde_json` reads from these bytes, if they are one JSON value.
pub uninterp spec fn json_document(bytes: Seq<u8>) -> Option<Json>;

/// The text that `serde_json` writes for a value; none for a value that holds
/// a number whose text `serde_json` does not read as a number.
pub uninterp spec fn json_text(value: Json) -> Option<Seq<char>>;

/// Moves a `serde_json::Value` into a [`Json`], variant by variant; a number
/// through `Number::as_u64`, then `Number::as_i64`, then its text.
#[verifier::external_body]
pub(crate) fn json_from_value(value: serde_json::Value) -> Json {
    match value {
        serde_json::Value::Null => Json::Null,
        serde_json::Value::Bool(b) => Json::Bool(b),
        serde_json::Value::Number(n) => Json::Number(match (n.as_u64(), n.as_i64()) {
            (Some(u), _) => JsonNumber::Unsigned(u),
            (None, Some(i)) => JsonNumber::Signed(i),
            (None, None) => JsonNumber::Other(n.to_string()),
        }),
        serde_json::Value::String(s) => Json::Str(s),
        serde_json::Value::Array(a) => Json::Array(a.into_iter().map(json_from_value).collect()),
        serde_json::Value::Object(o) => Json::Object(
            o.into_iter().map(|(k, v)| (k, json_from_value(v))).collect(),
        ),
    }
}

/// Moves a number into a `serde_json::Value`: an integer through `Value`'s
/// `From`, any other through `Number`'s `FromStr`; where that reads no number
/// in the text there is no value.
#[verifier::external_body]
fn json_number(number: &JsonNumber) -> Option<Value> {
    match number {
        JsonNumber::Unsigned(u) => Some(Value::from(*u)),
        JsonNumber::Signed(i) => Some(Value::from(*i)),
        JsonNumber::Other(t) => t.parse().ok().map(Value::Number),
    }
}

/// Moves a [`Json`] into a `serde_json::Value`, variant by variant; a number
/// for which there is no value ends the move.
#[verifier::external_body]
fn json_to_value(value: &Json) -> Option<Value> {
    Some(match value {
        Json::Null => Value::Null,
        Json::Bool(b) => Value::Bool(*b),
        Json::Number(n) => json_number(n)?,
        Json::Str(s) => Value::String(s.clone()),
        Json::Array(a) => Value::Array(a.iter().map(json_to_value).collect::<Option<_>>()?),
        Json::Object(o) => Value::Object(
            o.iter().map(|(k, v)| Some((k.clone(), json_to_value(v)?))).collect::<Option<_>>()?,
        ),
    })
}

/// `serde_json::from_slice`, reading a `Value`: the document in `bytes`, or the
/// parser's error where the bytes are not one JSON value.
#[verifier::external_body]
fn json_from_slice(bytes: &[u8]) -> (r: Result<Json, serde_json::Error>)
    ensures
        r is Ok <==> json_document(bytes@) is Some,
        r matches Ok(doc) ==> json_document(bytes@) == Some(doc),
{
    serde_json::from_slice::<serde_json::Value>(bytes).map(json_from_value)
}

/// `serde_json::Value`'s `to_string`: the compact JSON text of the value.
#[verifier::external_body]
fn json_to_string(value: &Json) -> (r: Option<String>)
    ensures
        match r {
            Some(text) => json_text(*value) == Some(text@),
            None => json_text(*value) is None,
        },
{
    json_to_value(value).map(|v| v.to_string())
}

/// The value stored under `key` among the members of an object: the first
/// member of that name.
pub open spec fn member(members: Seq<(String, Json)>, key: Seq<char>) -> Option<Json>
    decreases members.len(),
{
    if members.len() == 0 {
        None
    } else if members[0].0@ == key {
        Some(members[0].1)
    } else {
        member(members.drop_first(), key)
    }
}

/// The position of the first member named `key`, or the number of members
/// where there is none.
pub open spec fn member_index(members: Seq<(String, Json)>, key: Seq<char>) -> nat
    decreases members.len(),
{
    if members.len() == 0 || members[0].0@ == key {
        0
    } else {
        1 + member_index(members.drop_first(), key)
    }
}

/// The first member named `key` stands at `member_index`.
pub proof fn lemma_member_at_index(members: Seq<(String, Json)>, key: Seq<char>)
    ensures
        member_index(members, key) <= members.len(),
        member(members, key) == if member_index(members, key) < members.len() {
            Some(members[member_index(members, key) as int].1)
        } else {
            None
        },
        member_index(members, key) < members.len() ==> members[member_index(members, key) as int].0@
            == key,
    decreases members.len(),
{
    if members.len() != 0 && members[0].0@ != key {
        lemma_member_at_index(members.drop_first(), key);
    }
}

/// Where the first member named `key` stands, if there is one.
pub fn find_member(members: &Vec<(String, Json)>, key: &str) -> (r: Option<usize>)
    ensures
        match r {
            Some(i) => i == member_index(members@, key@) && i < members@.len(),
            None => member_index(members@, key@) >= members@.len(),
        },
{
    let mut i: usize = 0;
    assert(members@.skip(0) =~= members@);
    while i < members.len()
        invariant
            i <= members.len(),
            member_index(members@, key@) == i + member_index(members@.skip(i as int), key@),
        decreases members.len() - i,
    {
        assert(members@.skip(i as int)[0] == members@[i as int]);
        if str_eq(members[i].0.as_str(), key) {
            return Some(i);
        }
        assert(members@.skip(i as int).drop_first() =~= members@.skip(i + 1));
        i = i + 1;
    }
    None
}

impl Json {
    /// Reads one JSON document.
    pub fn parse(bytes: &[u8]) -> (r: Option<Json>)
        ensures
            r == json_document(bytes@),
    {
        match json_from_slice(bytes) {
            Ok(doc) => Some(doc),
            Err(_) => None,
        }
    }

    /// The compact JSON text of this value. There is none where the value
    /// holds a number whose text is no number.
    pub fn to_text(&self) -> (r: Option<String>)
        ensures
            match r {
                Some(text) => json_text(*self) == Some(text@),
                None => json_text(*self) is None,
            },
    {
        json_to_string(self)
    }

    /// The member `key` of an object; nothing for any other value.
    pub open spec fn field(&self, key: Seq<char>) -> Option<Json> {
        match *self {
            Json::Object(members) => member(members@, key),
            _ => None,
        }
    }

    /// The member `key` of an object; nothing for any other value.
    pub fn get(&self, key: &str) -> (r: Option<&Json>)
        ensures
            match r {
                Some(v) => self.field(key@) == Some(*v),
                None => self.field(key@) is None,
            },
    {
        match self {
            Json::Object(members) => {
                proof {
                    lemma_member_at_index(members@, key@);
                }
                match find_member(members, key) {
                    Some(i) => Some(&members[i].1),
                    None => None,
                }
            },
            _ => None,
        }
    }

    /// The text of a string value.
    pub fn as_str(&self) -> (r: Option<&str>)
        ensures
            match *self {
                Json::Str(s) => r matches Some(t) && t@ == s@,
                _ => r is None,
            },
    {
        match self {
            Json::Str(s) => Some(s.as_str()),
            _ => None,
        }
    }

    /// The truth value of a boolean.
    pub fn as_bool(&self) -> (r: Option<bool>)
        ensures
            r == (match *self {
                Json::Bool(b) => Some(b),
                _ => None,
            }),
    {
        match self {
            Json::Bool(b) => Some(*b),
            _ => None,
        }
    }

    /// The value of a number that is a non-negative integer of 64 bits.
    pub fn as_u64(&self) -> (r: Option<u64>)
        ensures
            r == (match *self {
                Json::Number(JsonNumber::Unsigned(n)) => Some(n),
                _ => None,
            }),
    {
        match self {
            Json::Number(JsonNumber::Unsigned(n)) => Some(*n),
            _ => None,
        }
    }

    /// The items of an array.
    pub fn as_array(&self) -> (r: Option<&Vec<Json>>)
        ensures
            match *self {
                Json::Array(items) => r == Some(&items),
                _ => r is None,
            },
    {
        match self {
            Json::Array(items) => Some(items),
            _ => None,
        }
    }
}

} // verus!
