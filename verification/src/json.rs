//! A plain model of the JSON documents carried in DAG payloads and quorum proofs.
use vstd::prelude::*;
use crate::text::str_eq;

verus! {

/// A JSON number as the JSON reader classifies it.
#[derive(Debug)]
pub enum JsonNumber {
    /// A non-negative integer.
    PosInt(u64),
    /// A negative integer.
    NegInt(i64),
    /// Any number that is not an integer, as read.
    Float(serde_json::Number),
}

/// One `"key": value` entry of a JSON object.
#[derive(Debug)]
pub struct JsonMember {
    pub key: String,
    pub value: JsonValue,
}

/// A JSON value.
#[derive(Debug)]
pub enum JsonValue {
    Null,
    Bool(bool),
    Number(JsonNumber),
    Str(String),
    Array(Vec<JsonValue>),
    Object(Vec<JsonMember>),
}

/// The value of the first member at or after `i` whose key is `key`.
pub open spec fn member_from(ms: Seq<JsonMember>, key: Seq<char>, i: int) -> Option<JsonValue>
    decreases ms.len() - i,
{
    if i < 0 || i >= ms.len() {
        None
    } else if ms[i].key@ == key {
        Some(ms[i].value)
    } else {
        member_from(ms, key, i + 1)
    }
}

/// `v[key]`: the member named `key` of an object, or nothing.
pub open spec fn json_get(v: JsonValue, key: Seq<char>) -> Option<JsonValue> {
    match v {
        JsonValue::Object(ms) => member_from(ms@, key, 0),
        _ => None,
    }
}

/// The text of a JSON string, or nothing.
pub open spec fn json_str(v: JsonValue) -> Option<Seq<char>> {
    match v {
        JsonValue::Str(s) => Some(s@),
        _ => None,
    }
}

/// The text of the string member `key` of an object, or nothing.
pub open spec fn json_get_str(v: JsonValue, key: Seq<char>) -> Option<Seq<char>> {
    match json_get(v, key) {
        Some(x) => json_str(x),
        None => None,
    }
}

/// The value of a non-negative integer, or nothing.
pub open spec fn json_u64(v: JsonValue) -> Option<u64> {
    match v {
        JsonValue::Number(JsonNumber::PosInt(n)) => Some(n),
        _ => None,
    }
}

impl JsonValue {
    /// Looks up the member `key` of an object.
    pub fn get(&self, key: &str) -> (r: Option<&JsonValue>)
        ensures
            match r {
                Some(x) => json_get(*self, key@) == Some(*x),
                None => json_get(*self, key@) is None,
            },
    {
        match self {
            JsonValue::Object(ms) => {
                let mut i: usize = 0;
                while i < ms.len()
                    invariant
                        i <= ms@.len(),
                        json_get(*self, key@) == member_from(ms@, key@, 0),
                        member_from(ms@, key@, 0) == member_from(ms@, key@, i as int),
                    decreases ms.len() - i,
                {
                    if str_eq(ms[i].key.as_str(), key) {
                        return Some(&ms[i].value);
                    }
                    i = i + 1;
                }
                None
            },
            _ => None,
        }
    }

    /// The text of a JSON string.
    pub fn as_str(&self) -> (r: Option<&String>)
        ensures
            match r {
                Some(s) => json_str(*self) == Some(s@),
                None => json_str(*self) is None,
            },
    {
        match self {
            JsonValue::Str(s) => Some(s),
            _ => None,
        }
    }

    /// The value of a non-negative integer.
    pub fn as_u64(&self) -> (r: Option<u64>)
        ensures
            r == json_u64(*self),
    {
        match self {
            JsonValue::Number(JsonNumber::PosInt(n)) => Some(*n),
            _ => None,
        }
    }

    /// The text of the string member `key`.
    pub fn get_str(&self, key: &str) -> (r: Option<&String>)
        ensures
            match r {
                Some(s) => json_get_str(*self, key@) == Some(s@),
                None => json_get_str(*self, key@) is None,
            },
    {
        match self.get(key) {
            Some(x) => x.as_str(),
            None => None,
        }
    }

    /// Whether this value is an object.
    pub fn is_object(&self) -> (r: bool)
        ensures
            r == (*self is Object),
    {
        match self {
            JsonValue::Object(_) => true,
            _ => false,
        }
    }
}

/// `m` is the member `key` holding the text `text`.
pub open spec fn is_text_member(m: JsonMember, key: Seq<char>, text: Seq<char>) -> bool {
    &&& m.key@ == key
    &&& m.value matches JsonValue::Str(s) && s@ == text
}

/// `m` is the member `key` holding the text given, or `null` when none is.
pub open spec fn is_opt_text_member(m: JsonMember, key: Seq<char>, text: Option<Seq<char>>) -> bool {
    &&& m.key@ == key
    &&& match text {
        Some(t) => m.value matches JsonValue::Str(s) && s@ == t,
        None => m.value is Null,
    }
}

/// The member `key` holding the text `value`.
pub fn text_member(key: &str, value: &str) -> (r: JsonMember)
    ensures
        is_text_member(r, key@, value@),
{
    JsonMember { key: key.to_owned(), value: JsonValue::Str(value.to_owned()) }
}

/// The member `key` holding the text given, or `null`.
pub fn opt_text_member(key: &str, value: &Option<String>) -> (r: JsonMember)
    ensures
        is_opt_text_member(r, key@, match value { Some(v) => Some(v@), None => None }),
{
    let v = match value {
        Some(t) => JsonValue::Str(t.clone()),
        None => JsonValue::Null,
    };
    JsonMember { key: key.to_owned(), value: v }
}

/// The member `key` holding `value`.
pub fn value_member(key: &str, value: JsonValue) -> (r: JsonMember)
    ensures
        r.key@ == key@,
        r.value == value,
{
    JsonMember { key: key.to_owned(), value }
}

/// The JSON document a byte string holds, or the text of the error, as
/// `serde_json::from_slice` reads it into a `serde_json::Value`.
pub uninterp spec fn json_reading(bytes: Seq<u8>) -> Result<JsonValue, Seq<char>>;

#[verifier::external_type_specification]
#[verifier::external_body]
pub struct ExSerdeJsonValue(serde_json::Value);

#[verifier::external_type_specification]
#[verifier::external_body]
pub struct ExSerdeJsonNumber(serde_json::Number);

/// Converts a document read by `serde_json` into the crate's own JSON model,
/// one value for one value.
#[verifier::external_body]
fn json_from_serde(v: serde_json::Value) -> JsonValue {
    match v {
        serde_json::Value::Null => JsonValue::Null,
        serde_json::Value::Bool(b) => JsonValue::Bool(b),
        serde_json::Value::Number(n) => JsonValue::Number(match (n.as_u64(), n.as_i64()) {
            (Some(u), _) => JsonNumber::PosInt(u),
            (None, Some(i)) => JsonNumber::NegInt(i),
            _ => JsonNumber::Float(n),
        }),
        serde_json::Value::String(s) => JsonValue::Str(s),
        serde_json::Value::Array(a) => JsonValue::Array(a.into_iter().map(json_from_serde).collect()),
        serde_json::Value::Object(m) => JsonValue::Object(
            m.into_iter().map(|(key, value)| JsonMember { key, value: json_from_serde(value) }).collect()),
    }
}

/// Reads a byte string as a JSON document with `serde_json::from_slice`; the
/// document, or the text of the error, is named by `json_reading`.
#[verifier::external_body]
pub(crate) fn read_json(bytes: &[u8]) -> (r: Result<JsonValue, String>)
    ensures
        match r {
            Ok(v) => json_reading(bytes@) == Ok::<JsonValue, Seq<char>>(v),
            Err(m) => json_reading(bytes@) == Err::<JsonValue, Seq<char>>(m@),
        },
{
    match serde_json::from_slice::<serde_json::Value>(bytes) {
        Ok(v) => Ok(json_from_serde(v)),
        Err(e) => Err(e.to_string()),
    }
}

/// The text `serde_json` writes for a JSON document (`Display` of
/// `serde_json::Value`: compact, members in key order).
pub uninterp spec fn json_written(v: JsonValue) -> Seq<char>;

/// Converts the crate's JSON model back into a `serde_json::Value`, one value
/// for one value.
#[verifier::external_body]
fn json_to_serde(v: &JsonValue) -> serde_json::Value {
    match v {
        JsonValue::Null => serde_json::Value::Null,
        JsonValue::Bool(b) => serde_json::Value::Bool(*b),
        JsonValue::Number(JsonNumber::PosInt(n)) => serde_json::Value::from(*n),
        JsonValue::Number(JsonNumber::NegInt(n)) => serde_json::Value::from(*n),
        JsonValue::Number(JsonNumber::Float(n)) => serde_json::Value::Number(n.clone()),
        JsonValue::Str(s) => serde_json::Value::String(s.clone()),
        JsonValue::Array(a) => serde_json::Value::Array(a.iter().map(json_to_serde).collect()),
        JsonValue::Object(ms) => serde_json::Value::Object(
            ms.iter().map(|m| (m.key.clone(), json_to_serde(&m.value))).collect()),
    }
}

/// Writes a JSON document as text with `serde_json::Value`'s `to_string`; the
/// text is named by `json_written`.
#[verifier::external_body]
pub(crate) fn json_text(v: &JsonValue) -> (r: String)
    ensures
        r@ == json_written(*v),
{
    json_to_serde(v).to_string()
}

} // verus!
