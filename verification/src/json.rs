//! The values of a Trino result set.
use vstd::prelude::*;

use crate::float::Float;

verus! {

/// A JSON number, by its readings as the numeric types that it fits.
#[derive(Clone, Debug)]
pub struct Number {
    pub as_i64: Option<i64>,
    pub as_u64: Option<u64>,
    pub as_f64: Option<Float>,
    /// The number as JSON text.
    pub text: String,
}

/// A JSON string.
#[derive(Clone, Debug)]
pub struct JsonText {
    pub text: String,
    /// The number that the string, without surrounding white space, reads as.
    pub as_f64: Option<Float>,
}

/// A JSON value. Arrays and objects are carried as compact JSON text.
#[derive(Clone, Debug)]
pub enum Json {
    Null,
    Bool(bool),
    Number(Number),
    Str(JsonText),
    Composite(String),
}

impl Json {
    /// The characters of a JSON string.
    pub open spec fn string_chars(self) -> Option<Seq<char>> {
        match self {
            Json::Str(s) => Some(s.text@),
            _ => None,
        }
    }

    /// The text of a JSON string.
    pub fn as_str(&self) -> (r: Option<&str>)
        ensures
            match r {
                Some(s) => self.string_chars() == Some(s@),
                None => self.string_chars() is None,
            },
    {
        match self {
            Json::Str(s) => Some(s.text.as_str()),
            _ => None,
        }
    }
}

/// A JSON string has its own text, and no other value has one.
pub proof fn strings_have_texts(value: Json)
    ensures
        value matches Json::Str(s) ==> value.string_chars() == Some(s.text@),
        !(value is Str) ==> value.string_chars() is None,
{
}

} // verus!
