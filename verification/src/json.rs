//! Documents: the values of JSON as the editor's workspaces read and write them.

use vstd::prelude::*;

use crate::number::{Double, Single};
use crate::ordered::TextMap;
use crate::text::decimal;
use crate::text::numeral;

verus! {

/// A number of a document.
#[derive(Debug)]
pub enum JsonNumber {
    /// A number as it was read: its value where it is a whole number of 64 bits, its value in
    /// double precision, and its text.
    Read { unsigned: Option<u64>, value: Double, text: String },
    /// A whole number, with the same in double precision.
    Whole { value: u64, wide: Double },
    /// A double-precision number.
    Real(Double),
    /// A single-precision number, with the same in double precision.
    Exact { value: Single, wide: Double },
}

/// A value of a document.
#[derive(Debug)]
pub enum Json {
    Null,
    Bool(bool),
    Number(JsonNumber),
    Text(String),
    Array(Vec<Json>),
    Object(TextMap<Json>),
}

impl JsonNumber {
    /// The number as a whole one.
    pub open spec fn whole(self) -> Option<u64> {
        match self {
            JsonNumber::Read { unsigned, .. } => unsigned,
            JsonNumber::Whole { value, .. } => Some(value),
            _ => None,
        }
    }

    /// The number in double precision.
    pub open spec fn double(self) -> Double {
        match self {
            JsonNumber::Read { value, .. } => value,
            JsonNumber::Whole { wide, .. } => wide,
            JsonNumber::Real(d) => d,
            JsonNumber::Exact { wide, .. } => wide,
        }
    }

    /// The number in single precision.
    pub open spec fn single(self) -> Single {
        match self {
            JsonNumber::Exact { value, .. } => value,
            _ => self.double().single,
        }
    }

    /// The text of the number.
    pub open spec fn text(self) -> Seq<char> {
        match self {
            JsonNumber::Read { text, .. } => text@,
            JsonNumber::Whole { value, .. } => numeral(value as nat),
            _ => self.double().text@,
        }
    }

    /// The number in double precision.
    pub fn to_double(&self) -> (r: Double)
        ensures
            r == self.double(),
    {
        match self {
            JsonNumber::Read { unsigned: _, value, text: _ } => *value,
            JsonNumber::Whole { value: _, wide } => *wide,
            JsonNumber::Real(d) => *d,
            JsonNumber::Exact { value: _, wide } => *wide,
        }
    }

    /// The text of the number.
    pub fn to_text(&self) -> (r: String)
        ensures
            r@ == self.text(),
    {
        match self {
            JsonNumber::Read { unsigned: _, value: _, text } => text.clone(),
            JsonNumber::Whole { value, wide: _ } => decimal(*value),
            _ => self.to_double().text.to_text(),
        }
    }
}

impl Json {
    /// The whole number that this is.
    pub open spec fn whole(self) -> Option<u64> {
        match self {
            Json::Number(n) => n.whole(),
            _ => None,
        }
    }

    /// The double-precision number that this is.
    pub open spec fn double(self) -> Option<Double> {
        match self {
            Json::Number(n) => Some(n.double()),
            _ => None,
        }
    }

    /// The single-precision number that this is.
    pub open spec fn single(self) -> Option<Single> {
        match self {
            Json::Number(n) => Some(n.single()),
            _ => None,
        }
    }

    /// The text that this is.
    pub open spec fn text(self) -> Option<Seq<char>> {
        match self {
            Json::Text(s) => Some(s@),
            _ => None,
        }
    }

    /// The elements of the array that this is.
    pub open spec fn elements(self) -> Option<Seq<Json>> {
        match self {
            Json::Array(a) => Some(a@),
            _ => None,
        }
    }

    /// The whole number that this is.
    pub fn as_u64(&self) -> (r: Option<u64>)
        ensures
            r == self.whole(),
    {
        match self {
            Json::Number(JsonNumber::Read { unsigned, value: _, text: _ }) => *unsigned,
            Json::Number(JsonNumber::Whole { value, wide: _ }) => Some(*value),
            _ => None,
        }
    }

    /// The double-precision number that this is.
    pub fn as_real(&self) -> (r: Option<Double>)
        ensures
            r == self.double(),
    {
        match self {
            Json::Number(n) => Some(n.to_double()),
            _ => None,
        }
    }

    /// The single-precision number that this is.
    pub fn as_single(&self) -> (r: Option<Single>)
        ensures
            r == self.single(),
    {
        match self {
            Json::Number(JsonNumber::Exact { value, wide: _ }) => Some(*value),
            Json::Number(n) => Some(n.to_double().single),
            _ => None,
        }
    }

    /// The text that this is.
    pub fn as_str(&self) -> (r: Option<&String>)
        ensures
            match r {
                Some(s) => *self == Json::Text(*s),
                None => self.text() is None,
            },
    {
        match self {
            Json::Text(s) => Some(s),
            _ => None,
        }
    }

    /// The array that this is.
    pub fn as_array(&self) -> (r: Option<&Vec<Json>>)
        ensures
            match r {
                Some(a) => *self == Json::Array(*a),
                None => !(*self is Array),
            },
    {
        match self {
            Json::Array(a) => Some(a),
            _ => None,
        }
    }

    /// The object that this is.
    pub fn as_object(&self) -> (r: Option<&TextMap<Json>>)
        ensures
            match r {
                Some(o) => *self == Json::Object(*o),
                None => !(*self is Object),
            },
    {
        match self {
            Json::Object(o) => Some(o),
            _ => None,
        }
    }
}

} // verus!
