//! JSON documents.

use crate::binary64::Binary64;
use crate::str_map::StrMap;
use vstd::prelude::*;

verus! {

/// A JSON value.
#[derive(Debug, PartialEq)]
pub enum JsonValue {
    Null,
    Bool(bool),
    /// A whole number from zero up.
    Unsigned(u64),
    /// A whole number below zero.
    Negative(i64),
    /// A number with a fraction or an exponent.
    Float(Binary64),
    Text(String),
    Array(Vec<JsonValue>),
    Object(StrMap<JsonValue>),
}

impl JsonValue {
    /// The value under a key of an object.
    pub open spec fn member(self, key: Seq<char>) -> Option<JsonValue> {
        match self {
            JsonValue::Object(map) if map@.contains_key(key) => Some(map@[key]),
            _ => None,
        }
    }

    /// The content of a string.
    pub open spec fn text(self) -> Option<Seq<char>> {
        match self {
            JsonValue::Text(s) => Some(s@),
            _ => None,
        }
    }

    /// The elements of an array; no elements for any other value.
    pub open spec fn items(self) -> Seq<JsonValue> {
        match self {
            JsonValue::Array(items) => items@,
            _ => Seq::empty(),
        }
    }

    /// The value of a whole number that fits `i64`.
    pub open spec fn small_integer(self) -> Option<int> {
        match self {
            JsonValue::Unsigned(n) if n <= i64::MAX => Some(n as int),
            JsonValue::Negative(n) => Some(n as int),
            _ => None,
        }
    }

    /// The value under a key of an object.
    pub fn get(&self, key: &str) -> (r: Option<&JsonValue>)
        ensures
            match r {
                Some(v) => self.member(key@) == Some(*v),
                None => self.member(key@) is None,
            },
    {
        match self {
            JsonValue::Object(map) => map.get(key),
            _ => None,
        }
    }

    /// The content of a string.
    pub fn as_text(&self) -> (r: Option<&String>)
        ensures
            match r {
                Some(s) => self.text() == Some(s@),
                None => self.text() is None,
            },
    {
        match self {
            JsonValue::Text(s) => Some(s),
            _ => None,
        }
    }

    /// The map of an object.
    pub fn as_object(&self) -> (r: Option<&StrMap<JsonValue>>)
        ensures
            match r {
                Some(map) => *self == JsonValue::Object(*map),
                None => !(self is Object),
            },
    {
        match self {
            JsonValue::Object(map) => Some(map),
            _ => None,
        }
    }
}

/// The value under a key of an optional value.
pub open spec fn member_of(v: Option<JsonValue>, key: Seq<char>) -> Option<JsonValue> {
    match v {
        Some(v) => v.member(key),
        None => None,
    }
}

/// The content of an optional string.
pub open spec fn text_of(v: Option<JsonValue>) -> Option<Seq<char>> {
    match v {
        Some(v) => v.text(),
        None => None,
    }
}

/// An optional reference as an optional value.
pub open spec fn referred(v: Option<&JsonValue>) -> Option<JsonValue> {
    match v {
        Some(v) => Some(*v),
        None => None,
    }
}

/// The content of the string under a key of an object.
pub fn text_member<'a>(v: Option<&'a JsonValue>, key: &str) -> (r: Option<&'a String>)
    ensures
        match r {
            Some(s) => text_of(member_of(referred(v), key@)) == Some(s@),
            None => text_of(member_of(referred(v), key@)) is None,
        },
{
    match v {
        Some(v) => match v.get(key) {
            Some(m) => m.as_text(),
            None => None,
        },
        None => None,
    }
}

} // verus!
