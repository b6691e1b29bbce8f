//! JSON values as the library reads and builds them, and their exchange with
//! `serde_json` for reading and writing JSON text.
use vstd::prelude::*;

use crate::error::AppError;
use crate::text::{chars_equal, chars_of, string_of};

verus! {

broadcast use vstd::string::group_string_axioms;

/// A JSON number: a non-negative integer, a negative integer, or any other
/// number, kept as its JSON text.
#[derive(Clone, Debug, PartialEq, Eq)]
pub enum JsonNumber {
    PosInt(u64),
    NegInt(i64),
    Float(String),
}

/// A JSON value. An object keeps its entries in order; lookups take the
/// first entry with the key.
#[derive(Debug, PartialEq, Eq)]
pub enum JsonValue {
    Null,
    Bool(bool),
    Number(JsonNumber),
    String(String),
    Array(Vec<JsonValue>),
    Object(Vec<(String, JsonValue)>),
}

/// The value stored under `key` in a list of object entries.
pub open spec fn entries_get(entries: Seq<(String, JsonValue)>, key: Seq<char>) -> Option<JsonValue>
    decreases entries.len(),
{
    if entries.len() == 0 {
        None
    } else if entries[0].0@ == key {
        Some(entries[0].1)
    } else {
        entries_get(entries.drop_first(), key)
    }
}

/// `value[key]` for an object; nothing for any other value.
pub open spec fn json_get(value: JsonValue, key: Seq<char>) -> Option<JsonValue> {
    match value {
        JsonValue::Object(entries) => entries_get(entries@, key),
        _ => None,
    }
}

/// The text of a string value.
pub open spec fn json_str(value: Option<JsonValue>) -> Option<Seq<char>> {
    match value {
        Some(JsonValue::String(s)) => Some(s@),
        _ => None,
    }
}

/// `Value::as_u64`: the value of a non-negative integer.
pub open spec fn json_u64(value: Option<JsonValue>) -> Option<u64> {
    match value {
        Some(JsonValue::Number(JsonNumber::PosInt(n))) => Some(n),
        _ => None,
    }
}

/// `Value::as_i64`: the value of an integer that fits in an `i64`.
pub open spec fn json_i64(value: Option<JsonValue>) -> Option<i64> {
    match value {
        Some(JsonValue::Number(JsonNumber::PosInt(n))) => if n <= i64::MAX {
            Some(n as i64)
        } else {
            None
        },
        Some(JsonValue::Number(JsonNumber::NegInt(n))) => Some(n),
        _ => None,
    }
}

/// `Value::as_bool`.
pub open spec fn json_bool(value: Option<JsonValue>) -> Option<bool> {
    match value {
        Some(JsonValue::Bool(b)) => Some(b),
        _ => None,
    }
}

/// The elements of an array value.
pub open spec fn json_array(value: Option<JsonValue>) -> Option<Seq<JsonValue>> {
    match value {
        Some(JsonValue::Array(items)) => Some(items@),
        _ => None,
    }
}

/// A string value with the given text.
pub open spec fn is_json_string(value: JsonValue, text: Seq<char>) -> bool {
    value matches JsonValue::String(s) && s@ == text
}

impl JsonValue {
    /// `value.get(key)`.
    pub fn get(&self, key: &str) -> (res: Option<&JsonValue>)
        ensures
            match res {
                Some(v) => json_get(*self, key@) == Some(*v),
                None => json_get(*self, key@) is None,
            },
    {
        match self {
            JsonValue::Object(entries) => {
                let k = chars_of(key);
                let mut i: usize = 0;
                assert(entries@.skip(0) =~= entries@);
                while i < entries.len()
                    invariant
                        i <= entries@.len(),
                        k@ == key@,
                        json_get(*self, key@) == entries_get(entries@, key@),
                        entries_get(entries@, key@) == entries_get(entries@.skip(i as int), key@),
                    decreases entries@.len() - i,
                {
                    let name = chars_of(entries[i].0.as_str());
                    let ghost rest = entries@.skip(i as int);
                    assert(rest[0] == entries@[i as int]);
                    if chars_equal(name.as_slice(), k.as_slice()) {
                        return Some(&entries[i].1);
                    }
                    assert(rest.drop_first() =~= entries@.skip(i + 1));
                    i = i + 1;
                }
                None
            },
            _ => None,
        }
    }

    /// `value.as_u64()`.
    pub fn as_u64(&self) -> (res: Option<u64>)
        ensures
            res == json_u64(Some(*self)),
    {
        match self {
            JsonValue::Number(JsonNumber::PosInt(n)) => Some(*n),
            _ => None,
        }
    }

    /// `value.as_i64()`.
    pub fn as_i64(&self) -> (res: Option<i64>)
        ensures
            res == json_i64(Some(*self)),
    {
        match self {
            JsonValue::Number(JsonNumber::PosInt(n)) => {
                if *n <= 9223372036854775807u64 {
                    Some(*n as i64)
                } else {
                    None
                }
            },
            JsonValue::Number(JsonNumber::NegInt(n)) => Some(*n),
            _ => None,
        }
    }

    /// `value.as_bool()`.
    pub fn as_bool(&self) -> (res: Option<bool>)
        ensures
            res == json_bool(Some(*self)),
    {
        match self {
            JsonValue::Bool(b) => Some(*b),
            _ => None,
        }
    }

    /// `value.as_str()`.
    pub fn as_str(&self) -> (res: Option<&str>)
        ensures
            match res {
                Some(s) => json_str(Some(*self)) == Some(s@),
                None => json_str(Some(*self)) is None,
            },
    {
        match self {
            JsonValue::String(s) => Some(s.as_str()),
            _ => None,
        }
    }

    /// `value.as_array()`.
    pub fn as_array(&self) -> (res: Option<&Vec<JsonValue>>)
        ensures
            match res {
                Some(items) => json_array(Some(*self)) == Some(items@),
                None => json_array(Some(*self)) is None,
            },
    {
        match self {
            JsonValue::Array(items) => Some(items),
            _ => None,
        }
    }
}

/// `a` and `b` hold the same data: equal scalars, strings and float texts
/// with the same characters, arrays and objects whose parts hold the same
/// data.
pub open spec fn same_json(a: JsonValue, b: JsonValue) -> bool
    decreases a,
{
    match a {
        JsonValue::Array(items) => b matches JsonValue::Array(others) && others@.len()
            == items@.len() && forall|i: int|
            0 <= i < items@.len() ==> same_json(items@[i], #[trigger] others@[i]),
        JsonValue::Object(entries) => b matches JsonValue::Object(others) && others@.len()
            == entries@.len() && forall|i: int|
            0 <= i < entries@.len() ==> (#[trigger] others@[i]).0@ == entries@[i].0@ && same_json(
                entries@[i].1,
                others@[i].1,
            ),
        JsonValue::String(s) => is_json_string(b, s@),
        JsonValue::Number(JsonNumber::Float(t)) => b matches JsonValue::Number(
            JsonNumber::Float(u),
        ) && u@ == t@,
        _ => b == a,
    }
}

/// A copy of a value.
pub fn copy_json(value: &JsonValue) -> (res: JsonValue)
    ensures
        same_json(*value, res),
    decreases value,
{
    match value {
        JsonValue::Null => JsonValue::Null,
        JsonValue::Bool(b) => JsonValue::Bool(*b),
        JsonValue::Number(JsonNumber::PosInt(n)) => JsonValue::Number(JsonNumber::PosInt(*n)),
        JsonValue::Number(JsonNumber::NegInt(n)) => JsonValue::Number(JsonNumber::NegInt(*n)),
        JsonValue::Number(JsonNumber::Float(t)) => {
            let cs = chars_of(t.as_str());
            JsonValue::Number(JsonNumber::Float(string_of(cs.as_slice())))
        },
        JsonValue::String(s) => {
            let cs = chars_of(s.as_str());
            JsonValue::String(string_of(cs.as_slice()))
        },
        JsonValue::Array(items) => {
            let mut out: Vec<JsonValue> = Vec::new();
            for i in 0..items.len()
                invariant
                    *value == JsonValue::Array(*items),
                    out@.len() == i,
                    forall|j: int| 0 <= j < i ==> same_json(items@[j], #[trigger] out@[j]),
            {
                assert(decreases_to!(*value => (*value)->Array_0));
                assert(decreases_to!(*items => items@));
                assert(decreases_to!(items@ => items@[i as int]));
                assert(decreases_to!(*value => items@[i as int]));
                out.push(copy_json(&items[i]));
            }
            JsonValue::Array(out)
        },
        JsonValue::Object(entries) => {
            let mut out: Vec<(String, JsonValue)> = Vec::new();
            for i in 0..entries.len()
                invariant
                    *value == JsonValue::Object(*entries),
                    out@.len() == i,
                    forall|j: int|
                        0 <= j < i ==> (#[trigger] out@[j]).0@ == entries@[j].0@ && same_json(
                            entries@[j].1,
                            out@[j].1,
                        ),
            {
                assert(decreases_to!(*value => (*value)->Object_0));
                assert(decreases_to!(*entries => entries@));
                assert(decreases_to!(entries@ => entries@[i as int]));
                assert(decreases_to!(entries@[i as int] => entries@[i as int].1));
                assert(decreases_to!(*value => entries@[i as int].1));
                let k = chars_of(entries[i].0.as_str());
                out.push((string_of(k.as_slice()), copy_json(&entries[i].1)));
            }
            JsonValue::Object(out)
        },
    }
}

/// A string value holding the text of a literal.
pub fn json_text(s: &str) -> (res: JsonValue)
    ensures
        is_json_string(res, s@),
{
    let chars = chars_of(s);
    JsonValue::String(string_of(chars.as_slice()))
}

/// The number value of a `u64`.
pub fn json_number(n: u64) -> (res: JsonValue)
    ensures
        res == JsonValue::Number(JsonNumber::PosInt(n)),
{
    JsonValue::Number(JsonNumber::PosInt(n))
}

// ---------------------------------------------------------------------------
// JSON text, through serde_json
// ---------------------------------------------------------------------------

#[verifier::external_type_specification]
#[verifier::external_body]
pub struct ExSerdeValue(serde_json::Value);

/// What `serde_json::to_vec` gives for the `serde_json::Value` that holds the
/// same data as `value`.
pub uninterp spec fn json_encoding(value: JsonValue) -> Option<Seq<u8>>;

/// What `serde_json::from_slice::<serde_json::Value>` reads from `bytes`, as a
/// `JsonValue` (`None` where it reports an error).
pub uninterp spec fn json_decoding(bytes: Seq<u8>) -> Option<JsonValue>;

#[verifier::external_type_specification]
#[verifier::external_body]
pub struct ExSerdeNumber(serde_json::Number);

/// The `serde_json::Value` of a number; a conversion only.
#[verifier::external_body]
fn number_to_serde(number: &JsonNumber) -> serde_json::Value {
    match number {
        JsonNumber::PosInt(n) => serde_json::Value::from(*n),
        JsonNumber::NegInt(n) => serde_json::Value::from(*n),
        JsonNumber::Float(t) => t.parse().map(serde_json::Value::Number).unwrap_or(serde_json::Value::Null),
    }
}

/// The `JsonNumber` of a `serde_json::Number`; a conversion only.
#[verifier::external_body]
fn number_from_serde(number: serde_json::Number) -> JsonNumber {
    match (number.as_u64(), number.as_i64()) {
        (Some(u), _) => JsonNumber::PosInt(u),
        (None, Some(i)) => JsonNumber::NegInt(i),
        _ => JsonNumber::Float(number.to_string()),
    }
}

/// The `serde_json::Value` that holds the same data; a conversion only.
#[verifier::external_body]
fn to_serde(value: &JsonValue) -> serde_json::Value {
    match value {
        JsonValue::Null => serde_json::Value::Null,
        JsonValue::Bool(b) => serde_json::Value::Bool(*b),
        JsonValue::Number(n) => number_to_serde(n),
        JsonValue::String(s) => serde_json::Value::String(s.clone()),
        JsonValue::Array(items) => serde_json::Value::Array(items.iter().map(to_serde).collect()),
        JsonValue::Object(entries) => serde_json::Value::Object(entries.iter().map(|(k, v)| (k.clone(), to_serde(v))).collect()),
    }
}

/// The `JsonValue` that holds the same data as a `serde_json::Value`; a
/// conversion only.
#[verifier::external_body]
fn from_serde(value: serde_json::Value) -> JsonValue {
    match value {
        serde_json::Value::Null => JsonValue::Null,
        serde_json::Value::Bool(b) => JsonValue::Bool(b),
        serde_json::Value::Number(n) => JsonValue::Number(number_from_serde(n)),
        serde_json::Value::String(s) => JsonValue::String(s),
        serde_json::Value::Array(items) => JsonValue::Array(items.into_iter().map(from_serde).collect()),
        serde_json::Value::Object(entries) => JsonValue::Object(entries.into_iter().map(|(k, v)| (k, from_serde(v))).collect()),
    }
}

/// `serde_json::to_vec` on the `serde_json::Value` that holds the same data:
/// its bytes are named by `json_encoding`. It succeeds: serde_json fails
/// only where a `Serialize` impl fails or a map has keys that are not
/// strings, and neither happens for a `serde_json::Value`.
#[verifier::external_body]
fn serde_to_vec(value: &JsonValue) -> (res: Result<Vec<u8>, AppError>)
    ensures
        res is Ok,
        res matches Ok(bytes) ==> json_encoding(*value) == Some(bytes@),
{
    serde_json::to_vec(&to_serde(value)).map_err(|e| AppError::Json(e.to_string()))
}

/// `serde_json::from_slice::<serde_json::Value>`, converted: its result is
/// named by `json_decoding`; an error from serde_json becomes
/// `AppError::Json`.
#[verifier::external_body]
fn serde_from_slice(bytes: &[u8]) -> (res: Result<JsonValue, AppError>)
    ensures
        match res {
            Ok(v) => json_decoding(bytes@) == Some(v),
            Err(e) => json_decoding(bytes@) is None && e is Json,
        },
{
    serde_json::from_slice::<serde_json::Value>(bytes).map(from_serde).map_err(|e| AppError::Json(e.to_string()))
}

/// The JSON text of a value; it always succeeds.
pub fn encode_json(value: &JsonValue) -> (res: Result<Vec<u8>, AppError>)
    ensures
        res is Ok,
        res matches Ok(bytes) ==> json_encoding(*value) == Some(bytes@),
{
    serde_to_vec(value)
}

/// The value that JSON text holds.
pub fn decode_json(bytes: &[u8]) -> (res: Result<JsonValue, AppError>)
    ensures
        match res {
            Ok(v) => json_decoding(bytes@) == Some(v),
            Err(e) => json_decoding(bytes@) is None && e is Json,
        },
{
    serde_from_slice(bytes)
}

} // verus!
