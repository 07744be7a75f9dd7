//! The tagged-JSON documents that the Syma kernel hands back, as plain data.
//!
//! `Json` has one variant per kind of JSON value. A number keeps the three
//! shapes that a JSON number takes: a non-negative integer, a negative
//! integer, or a float, the latter held by its IEEE-754 bit pattern. An object
//! keeps its entries in iteration order.
use vstd::prelude::*;

verus! {

/// A JSON number.
#[derive(Clone, Copy, Debug, PartialEq, Eq)]
pub enum JsonNumber {
    /// An integer `>= 0`.
    PosInt(u64),
    /// An integer `< 0`.
    NegInt(i64),
    /// A finite float, by its bit pattern (`f64::to_bits`).
    Float(u64),
}

/// A JSON value.
#[derive(Debug)]
pub enum Json {
    Null,
    Bool(bool),
    Number(JsonNumber),
    String(String),
    Array(Vec<Json>),
    Object(Vec<(String, Json)>),
}

/// The index of the first entry whose key is `key`, searching from `from` on.
pub open spec fn first_key_index_from(entries: Seq<(String, Json)>, key: Seq<char>, from: int) -> Option<int>
    decreases entries.len() - from,
{
    if from < 0 || from >= entries.len() {
        None
    } else if entries[from].0@ == key {
        Some(from)
    } else {
        first_key_index_from(entries, key, from + 1)
    }
}

/// The index of the first entry whose key is `key`.
pub open spec fn first_key_index(entries: Seq<(String, Json)>, key: Seq<char>) -> Option<int> {
    first_key_index_from(entries, key, 0)
}

/// The value stored under `key` in an object's entries: the first entry with that key.
pub open spec fn lookup(entries: Seq<(String, Json)>, key: Seq<char>) -> Option<Json> {
    match first_key_index(entries, key) {
        Some(i) => Some(entries[i].1),
        None => None,
    }
}

pub proof fn lemma_first_key_index_from(entries: Seq<(String, Json)>, key: Seq<char>, from: int)
    requires
        0 <= from,
    ensures
        match first_key_index_from(entries, key, from) {
            Some(i) => from <= i < entries.len() && entries[i].0@ == key && forall|k: int|
                from <= k < i ==> entries[k].0@ != key,
            None => forall|k: int| from <= k < entries.len() ==> entries[k].0@ != key,
        },
    decreases entries.len() - from,
{
    if from < entries.len() && entries[from].0@ != key {
        lemma_first_key_index_from(entries, key, from + 1);
    }
}

/// What `serde_json::Number::as_i64` gives.
pub open spec fn spec_number_as_i64(n: JsonNumber) -> Option<i64> {
    match n {
        JsonNumber::PosInt(u) => if u <= i64::MAX as u64 {
            Some(u as i64)
        } else {
            None
        },
        JsonNumber::NegInt(i) => Some(i),
        JsonNumber::Float(_) => None,
    }
}

impl JsonNumber {
    /// The number as an `i64`, where it is an integer that fits.
    pub fn as_i64(&self) -> (r: Option<i64>)
        ensures
            r == spec_number_as_i64(*self),
    {
        match *self {
            JsonNumber::PosInt(u) => if u <= 9223372036854775807u64 {
                Some(u as i64)
            } else {
                None
            },
            JsonNumber::NegInt(i) => Some(i),
            JsonNumber::Float(_) => None,
        }
    }
}

/// The bit pattern of `0.0`, the float that stands in where no number was found.
pub open spec fn zero_float() -> JsonNumber {
    JsonNumber::Float(0)
}

impl Json {
    /// The entries of an object, or `None` for any other value.
    pub fn as_object(&self) -> (r: Option<&Vec<(String, Json)>>)
        ensures
            match *self {
                Json::Object(entries) => r == Some(&entries),
                _ => r is None,
            },
    {
        match self {
            Json::Object(entries) => Some(entries),
            _ => None,
        }
    }

    /// The text of a string, or `None` for any other value.
    pub fn as_str(&self) -> (r: Option<&String>)
        ensures
            match *self {
                Json::String(s) => r == Some(&s),
                _ => r is None,
            },
    {
        match self {
            Json::String(s) => Some(s),
            _ => None,
        }
    }

    /// The flag of a boolean, or `None` for any other value.
    pub fn as_bool(&self) -> (r: Option<bool>)
        ensures
            match *self {
                Json::Bool(b) => r == Some(b),
                _ => r is None,
            },
    {
        match self {
            Json::Bool(b) => Some(*b),
            _ => None,
        }
    }

    /// The number of a number value, or `None` for any other value.
    pub fn as_number(&self) -> (r: Option<JsonNumber>)
        ensures
            match *self {
                Json::Number(n) => r == Some(n),
                _ => r is None,
            },
    {
        match self {
            Json::Number(n) => Some(*n),
            _ => None,
        }
    }
}

/// The value stored under `key` among an object's entries (the first entry with
/// that key), as `Map::get` finds it.
pub fn get<'a>(entries: &'a Vec<(String, Json)>, key: &String) -> (r: Option<&'a Json>)
    ensures
        match lookup(entries@, key@) {
            Some(v) => r == Some(&v),
            None => r is None,
        },
{
    let mut i: usize = 0;
    while i < entries.len()
        invariant
            i <= entries.len(),
            first_key_index(entries@, key@) == first_key_index_from(entries@, key@, i as int),
        decreases entries.len() - i,
    {
        if entries[i].0 == *key {
            return Some(&entries[i].1);
        }
        i = i + 1;
    }
    None
}

} // verus!
