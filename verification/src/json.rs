//! A JSON document as plain values: what the draft writer builds and what
//! the data-center replies are read from.
use vstd::prelude::*;

use crate::text::{chars_eq_str, chars_of};

verus! {

/// A JSON number: an integer, a decimal read from a document (kept as the
/// bits of its `f64`), or a fraction `num / den` that is written as the
/// nearest `f64`.
#[derive(Debug, Clone, Copy, PartialEq, Eq, Structural)]
pub enum JsonNumber {
    Int(i128),
    Float(u64),
    Frac(i128, u64),
}

#[derive(Debug)]
pub enum JsonValue {
    Null,
    Bool(bool),
    Number(JsonNumber),
    Str(String),
    Array(Vec<JsonValue>),
    Object(Vec<(String, JsonValue)>),
}

/// The value of the first entry named `key`.
pub open spec fn entry_value(entries: Seq<(String, JsonValue)>, key: Seq<char>) -> Option<JsonValue>
    decreases entries.len(),
{
    if entries.len() == 0 {
        None
    } else if entries[0].0@ == key {
        Some(entries[0].1)
    } else {
        entry_value(entries.drop_first(), key)
    }
}

/// The first entry named `key` gives the value.
pub proof fn lemma_entry_at(entries: Seq<(String, JsonValue)>, i: int, key: Seq<char>)
    requires
        0 <= i < entries.len(),
        entries[i].0@ == key,
        forall|j: int| 0 <= j < i ==> (#[trigger] entries[j]).0@ != key,
    ensures
        entry_value(entries, key) == Some(entries[i].1),
    decreases i,
{
    if i > 0 {
        assert forall|j: int| 0 <= j < i - 1 implies (#[trigger] entries.drop_first()[j]).0@ != key by {
            assert(entries.drop_first()[j] == entries[j + 1]);
        }
        lemma_entry_at(entries.drop_first(), i - 1, key);
    }
}

impl JsonValue {
    /// The value under `key`, when this is an object that has one.
    pub open spec fn field(self, key: Seq<char>) -> Option<JsonValue> {
        match self {
            JsonValue::Object(entries) => entry_value(entries@, key),
            _ => None,
        }
    }

    /// The number of entries of an object (-1 when this is no object).
    pub open spec fn entry_count(self) -> int {
        match self {
            JsonValue::Object(entries) => entries@.len() as int,
            _ => -1,
        }
    }

    /// The value under `key`, or null.
    pub open spec fn at(self, key: Seq<char>) -> JsonValue {
        match self.field(key) {
            Some(v) => v,
            None => JsonValue::Null,
        }
    }

    /// The text under `key`.
    pub open spec fn text_at(self, key: Seq<char>) -> Option<Seq<char>> {
        self.at(key).text()
    }

    /// The number of items of the array under `key` (-1 when there is none).
    pub open spec fn len_at(self, key: Seq<char>) -> int {
        match self.at(key).items() {
            Some(s) => s.len() as int,
            None => -1,
        }
    }

    /// The `i`-th item of the array under `key`, or null.
    pub open spec fn item(self, key: Seq<char>, i: int) -> JsonValue {
        match self.at(key).items() {
            Some(s) => if 0 <= i < s.len() {
                s[i]
            } else {
                JsonValue::Null
            },
            None => JsonValue::Null,
        }
    }

    /// The text of a string value.
    pub open spec fn text(self) -> Option<Seq<char>> {
        match self {
            JsonValue::Str(s) => Some(s@),
            _ => None,
        }
    }

    /// The items of an array value.
    pub open spec fn items(self) -> Option<Seq<JsonValue>> {
        match self {
            JsonValue::Array(v) => Some(v@),
            _ => None,
        }
    }

    /// The number of a number value.
    pub open spec fn number(self) -> Option<JsonNumber> {
        match self {
            JsonValue::Number(n) => Some(n),
            _ => None,
        }
    }

    /// A number that is an integer within `u64` (`Value::as_u64`).
    pub open spec fn spec_as_u64(self) -> Option<u64> {
        match self {
            JsonValue::Number(JsonNumber::Int(i)) => if 0 <= i <= u64::MAX {
                Some(i as u64)
            } else {
                None
            },
            _ => None,
        }
    }

    /// The value under `key`, when this is an object that has one
    /// (`Value::get`).
    pub fn get(&self, key: &str) -> (r: Option<&JsonValue>)
        ensures
            match r {
                Some(v) => self.field(key@) == Some(*v),
                None => self.field(key@) is None,
            },
    {
        match self {
            JsonValue::Object(entries) => {
                let mut i: usize = 0;
                assert(entries@.skip(0) == entries@);
                while i < entries.len()
                    invariant
                        0 <= i <= entries.len(),
                        self.field(key@) == entry_value(entries@, key@),
                        entry_value(entries@, key@) == entry_value(entries@.skip(i as int), key@),
                    decreases entries.len() - i,
                {
                    assert(entries@.skip(i as int).drop_first() == entries@.skip(i + 1));
                    let k = chars_of(entries[i].0.as_str());
                    if chars_eq_str(&k, key) {
                        assert(entries@.skip(i as int)[0] == entries@[i as int]);
                        return Some(&entries[i].1);
                    }
                    i = i + 1;
                }
                None
            },
            _ => None,
        }
    }

    /// The text of a string value (`Value::as_str`).
    pub fn as_str(&self) -> (r: Option<&str>)
        ensures
            match r {
                Some(s) => self.text() == Some(s@),
                None => self.text() is None,
            },
    {
        match self {
            JsonValue::Str(s) => Some(s.as_str()),
            _ => None,
        }
    }

    /// A number that is an integer within `u64` (`Value::as_u64`).
    pub fn as_u64(&self) -> (r: Option<u64>)
        ensures
            r == self.spec_as_u64(),
    {
        match self {
            JsonValue::Number(JsonNumber::Int(i)) => {
                if 0 <= *i && *i <= u64::MAX as i128 {
                    Some(*i as u64)
                } else {
                    None
                }
            },
            _ => None,
        }
    }

    /// The number of a number value (what `Value::as_f64` reads).
    pub fn as_number(&self) -> (r: Option<JsonNumber>)
        ensures
            r == self.number(),
    {
        match self {
            JsonValue::Number(n) => Some(*n),
            _ => None,
        }
    }

    /// The items of an array value (`Value::as_array`).
    pub fn as_array(&self) -> (r: Option<&Vec<JsonValue>>)
        ensures
            match r {
                Some(v) => self.items() == Some(v@),
                None => self.items() is None,
            },
    {
        match self {
            JsonValue::Array(v) => Some(v),
            _ => None,
        }
    }

    /// Whether this is `true`.
    pub fn is_true(&self) -> (r: bool)
        ensures
            r == (self == JsonValue::Bool(true)),
    {
        match self {
            JsonValue::Bool(b) => *b,
            _ => false,
        }
    }
}

// ---------------------------------------------------------------------------
// Building
// ---------------------------------------------------------------------------
/// An object entry.
pub fn entry(key: &str, value: JsonValue) -> (r: (String, JsonValue))
    ensures
        r.0@ == key@,
        r.1 == value,
{
    (String::from_str(key), value)
}

pub fn string(s: &str) -> (r: JsonValue)
    ensures
        r.text() == Some(s@),
{
    JsonValue::Str(String::from_str(s))
}

pub fn uint(n: u64) -> (r: JsonValue)
    ensures
        r == JsonValue::Number(JsonNumber::Int(n as i128)),
{
    JsonValue::Number(JsonNumber::Int(n as i128))
}

pub fn signed(n: i64) -> (r: JsonValue)
    ensures
        r == JsonValue::Number(JsonNumber::Int(n as i128)),
{
    JsonValue::Number(JsonNumber::Int(n as i128))
}

/// The decimal `num / den`.
pub fn frac(num: i128, den: u64) -> (r: JsonValue)
    ensures
        r == JsonValue::Number(JsonNumber::Frac(num, den)),
{
    JsonValue::Number(JsonNumber::Frac(num, den))
}

pub fn empty_array() -> (r: JsonValue)
    ensures
        r.items() == Some(Seq::<JsonValue>::empty()),
{
    JsonValue::Array(Vec::new())
}


// ---------------------------------------------------------------------------
// JSON text
// ---------------------------------------------------------------------------
#[verifier::external_type_specification]
#[verifier::external_body]
pub struct ExSerdeValue(serde_json::Value);

/// What `serde_json::from_slice` reads from these bytes, as the library's
/// JSON value (`None` when they are no JSON text).
pub uninterp spec fn json_of_bytes(bytes: Seq<u8>) -> Option<JsonValue>;

/// A parsed `serde_json::Value` as the library's JSON value, variant for
/// variant (integers as integers, other numbers by the bits of their
/// `f64`).
#[verifier::external_body]
fn json_from_value(v: serde_json::Value) -> JsonValue {
    match v {
        serde_json::Value::Null => JsonValue::Null,
        serde_json::Value::Bool(b) => JsonValue::Bool(b),
        serde_json::Value::Number(n) => JsonValue::Number(match n.as_i128() {
            Some(i) => JsonNumber::Int(i),
            None => JsonNumber::Float(n.as_f64().unwrap_or_default().to_bits()),
        }),
        serde_json::Value::String(s) => JsonValue::Str(s),
        serde_json::Value::Array(a) => JsonValue::Array(a.into_iter().map(json_from_value).collect()),
        serde_json::Value::Object(m) => JsonValue::Object(m.into_iter().map(|(k, x)| (k, json_from_value(x))).collect()),
    }
}

/// `serde_json::from_slice` into a `serde_json::Value`, converted to the
/// library's JSON value: the value that the bytes hold as JSON text, or
/// `None` when they are none. The result is named `json_of_bytes` of the
/// bytes; what that is on given bytes is not stated.
#[verifier::external_body]
pub fn parse_json_bytes(bytes: &[u8]) -> (r: Option<JsonValue>)
    ensures
        r == json_of_bytes(bytes@),
{
    serde_json::from_slice::<serde_json::Value>(bytes).ok().map(json_from_value)
}

/// The value under `key` of an object, taken out of it (null when there
/// is none).
pub fn into_at(v: JsonValue, key: &str) -> (r: JsonValue)
    ensures
        r == v.at(key@),
{
    match v {
        JsonValue::Object(mut entries) => {
            let ghost all = entries@;
            let mut i: usize = 0;
            assert(all.skip(0) == all);
            while i < entries.len()
                invariant
                    0 <= i <= entries.len(),
                    entries@ == all,
                    v == JsonValue::Object(entries),
                    entry_value(all, key@) == entry_value(all.skip(i as int), key@),
                decreases entries.len() - i,
            {
                assert(all.skip(i as int).drop_first() == all.skip(i + 1));
                let k = chars_of(entries[i].0.as_str());
                if chars_eq_str(&k, key) {
                    assert(all.skip(i as int)[0] == all[i as int]);
                    let (_, value) = entries.remove(i);
                    return value;
                }
                i = i + 1;
            }
            JsonValue::Null
        },
        _ => JsonValue::Null,
    }
}

} // verus!
