//! A plain model of json values, rich enough to carry procedure inputs,
//! variable arguments, and the answer slot between the host and a script.
//!
//! Numbers are modelled as signed 64-bit integers; the embedding program is
//! responsible for converting engine-side values into this shape.

use vstd::prelude::*;

verus! {

/// A json value with integer numbers.
#[derive(Debug)]
pub enum JsonValue {
    Null,
    Bool(bool),
    Int(i64),
    Text(String),
    Arr(Vec<JsonValue>),
    Obj(Vec<(String, JsonValue)>),
}

impl JsonValue {
    /// True exactly of `Null`.
    pub fn is_null(&self) -> (r: bool)
        ensures
            r == (*self is Null),
    {
        match self {
            JsonValue::Null => true,
            _ => false,
        }
    }
}

} // verus!
