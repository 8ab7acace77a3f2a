//! JSON values as the Polymarket API returns them, and the lookups the
//! event normalisation makes on them.

use crate::text::{decimal, signed_decimal, str_equal};
use vstd::prelude::*;

verus! {

/// A JSON number, in the three forms `serde_json` keeps: a non-negative
/// integer, a negative integer, or a floating-point number (held as the text
/// that `f64`'s `Display` prints for it).
#[derive(PartialEq, Debug)]
pub enum JsonNumber {
    PosInt(u64),
    NegInt(i64),
    Float(String),
}

/// A JSON value. An object keeps its entries in order; when a key occurs
/// more than once, the last entry is the one that counts, as in the map
/// `serde_json` builds.
#[derive(PartialEq, Debug)]
pub enum JsonValue {
    Null,
    Bool(bool),
    Number(JsonNumber),
    String(String),
    Array(Vec<JsonValue>),
    Object(Vec<(String, JsonValue)>),
}

/// The value stored under `key` among `entries`: that of the last entry
/// with that key.
pub open spec fn entry_lookup(entries: Seq<(String, JsonValue)>, key: Seq<char>) -> Option<
    JsonValue,
>
    decreases entries.len(),
{
    if entries.len() == 0 {
        None
    } else if entries.last().0@ == key {
        Some(entries.last().1)
    } else {
        entry_lookup(entries.drop_last(), key)
    }
}

proof fn lemma_lookup_last(entries: Seq<(String, JsonValue)>, key: Seq<char>, i: int)
    requires
        0 <= i < entries.len(),
        entries[i].0@ == key,
        forall|j: int| i < j < entries.len() ==> (#[trigger] entries[j]).0@ != key,
    ensures
        entry_lookup(entries, key) == Some(entries[i].1),
    decreases entries.len(),
{
    if i < entries.len() - 1 {
        let rest = entries.drop_last();
        assert(entries.last() == entries[entries.len() - 1]);
        assert forall|j: int| i < j < rest.len() implies (#[trigger] rest[j]).0@ != key by {
            assert(rest[j] == entries[j]);
        }
        assert(rest[i] == entries[i]);
        lemma_lookup_last(rest, key, i);
    }
}

proof fn lemma_lookup_absent(entries: Seq<(String, JsonValue)>, key: Seq<char>)
    requires
        forall|j: int| 0 <= j < entries.len() ==> (#[trigger] entries[j]).0@ != key,
    ensures
        entry_lookup(entries, key) is None,
    decreases entries.len(),
{
    if entries.len() > 0 {
        let rest = entries.drop_last();
        assert(entries.last() == entries[entries.len() - 1]);
        assert forall|j: int| 0 <= j < rest.len() implies (#[trigger] rest[j]).0@ != key by {
            assert(rest[j] == entries[j]);
        }
        lemma_lookup_absent(rest, key);
    }
}

/// The position of the last entry with key `key`.
fn find_key(entries: &Vec<(String, JsonValue)>, key: &str) -> (r: Option<usize>)
    ensures
        match r {
            Some(i) => i < entries@.len() && entry_lookup(entries@, key@) == Some(
                entries@[i as int].1,
            ),
            None => entry_lookup(entries@, key@) is None,
        },
{
    let mut i: usize = entries.len();
    while i > 0
        invariant
            i <= entries@.len(),
            forall|j: int| i <= j < entries@.len() ==> (#[trigger] entries@[j]).0@ != key@,
        decreases i,
    {
        if str_equal(entries[i - 1].0.as_str(), key) {
            proof {
                lemma_lookup_last(entries@, key@, i - 1);
            }
            return Some(i - 1);
        }
        i = i - 1;
    }
    proof {
        lemma_lookup_absent(entries@, key@);
    }
    None
}

/// `serde_json::Value::as_i64`.
pub open spec fn as_i64_spec(v: JsonValue) -> Option<i64> {
    match v {
        JsonValue::Number(JsonNumber::PosInt(n)) => if n <= i64::MAX {
            Some(n as i64)
        } else {
            None
        },
        JsonValue::Number(JsonNumber::NegInt(i)) => Some(i),
        _ => None,
    }
}

/// The text a scalar renders to when an event field is read as a string: a
/// string as it is, a number in decimal (or as printed, for a float); other
/// values give none.
pub open spec fn scalar_text(v: JsonValue) -> Option<Seq<char>> {
    match v {
        JsonValue::String(s) => Some(s@),
        JsonValue::Number(JsonNumber::PosInt(n)) => Some(decimal(n as nat)),
        JsonValue::Number(JsonNumber::NegInt(i)) => Some(signed_decimal(i as int)),
        JsonValue::Number(JsonNumber::Float(t)) => Some(t@),
        _ => None,
    }
}

impl JsonValue {
    /// `serde_json::Value::get` with a string key: the value of an object's
    /// entry, nothing for any other value.
    pub open spec fn get_spec(self, key: Seq<char>) -> Option<JsonValue> {
        match self {
            JsonValue::Object(entries) => entry_lookup(entries@, key),
            _ => None,
        }
    }

    pub fn get(&self, key: &str) -> (r: Option<&JsonValue>)
        ensures
            match r {
                Some(v) => self.get_spec(key@) == Some(*v),
                None => self.get_spec(key@) is None,
            },
    {
        match self {
            JsonValue::Object(entries) => match find_key(entries, key) {
                Some(i) => Some(&entries[i].1),
                None => None,
            },
            _ => None,
        }
    }

    /// `serde_json::Value::as_bool`.
    pub fn as_bool(&self) -> (r: Option<bool>)
        ensures
            r == match *self {
                JsonValue::Bool(b) => Some(b),
                _ => None::<bool>,
            },
    {
        match self {
            JsonValue::Bool(b) => Some(*b),
            _ => None,
        }
    }

    /// `serde_json::Value::as_i64`.
    pub fn as_i64(&self) -> (r: Option<i64>)
        ensures
            r == as_i64_spec(*self),
    {
        match self {
            JsonValue::Number(JsonNumber::PosInt(n)) => {
                if *n <= i64::MAX as u64 {
                    Some(*n as i64)
                } else {
                    None
                }
            },
            JsonValue::Number(JsonNumber::NegInt(i)) => Some(*i),
            _ => None,
        }
    }

    /// `serde_json::Value::as_array`.
    pub fn as_array(&self) -> (r: Option<&Vec<JsonValue>>)
        ensures
            match *self {
                JsonValue::Array(a) => r == Some(&a),
                _ => r is None,
            },
    {
        match self {
            JsonValue::Array(a) => Some(a),
            _ => None,
        }
    }
}

/// The events carried by an API response: the response itself when it is an
/// array, else its `events` member when that is an array, else none.
pub open spec fn response_events(value: JsonValue) -> Seq<JsonValue> {
    match value {
        JsonValue::Array(a) => a@,
        _ => match value.get_spec("events"@) {
            Some(JsonValue::Array(a)) => a@,
            _ => Seq::empty(),
        },
    }
}

/// Takes the list of events out of an API response, which is either the
/// list itself or an object with an `events` list.
pub fn events_from_response(value: JsonValue) -> (events: Vec<JsonValue>)
    ensures
        events@ == response_events(value),
{
    match value {
        JsonValue::Array(events) => events,
        JsonValue::Object(entries) => {
            let mut entries = entries;
            match find_key(&entries, "events") {
                Some(i) => {
                    let (_, member) = entries.remove(i);
                    match member {
                        JsonValue::Array(events) => events,
                        _ => Vec::new(),
                    }
                },
                None => Vec::new(),
            }
        },
        _ => Vec::new(),
    }
}

/// A key's value is that of its last entry: appending an entry makes it
/// the value of its key and leaves every other key as it was.
pub proof fn lemma_last_entry_counts(
    entries: Seq<(String, JsonValue)>,
    key: String,
    value: JsonValue,
    other: Seq<char>,
)
    ensures
        entry_lookup(entries.push((key, value)), key@) == Some(value),
        other != key@ ==> entry_lookup(entries.push((key, value)), other) == entry_lookup(
            entries,
            other,
        ),
{
    assert(entries.push((key, value)).drop_last() =~= entries);
}

/// A response carries its events either as the whole answer, when that is
/// an array, or in its `events` member; anything else carries none.
pub proof fn lemma_response_events(value: JsonValue, events: Vec<JsonValue>)
    ensures
        value == JsonValue::Array(events) ==> response_events(value) == events@,
        (value is Object && value.get_spec("events"@) == Some(JsonValue::Array(events)))
            ==> response_events(value) == events@,
        (value is Object && !(value.get_spec("events"@) matches Some(JsonValue::Array(_))))
            ==> response_events(value).len() == 0,
        (value is Null || value is Bool || value is Number || value is String)
            ==> response_events(value).len() == 0,
{
}

} // verus!
