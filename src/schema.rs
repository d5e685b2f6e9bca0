//! The shapes that the contract declares for response bodies, and the JSON
//! values that a service sends back.
use vstd::prelude::*;

verus! {

/// A response schema, already dereferenced: every node is held in place.
#[derive(Debug)]
pub enum Schema {
    /// A node that declares no type: anything goes.
    Untyped,
    Boolean,
    Integer,
    Number,
    /// A string, with the format the contract declares for it, if any.
    Str(Option<String>),
    /// An array, with the schema of its items, if declared.
    Array(Option<Box<Schema>>),
    /// An object, with the schemas of its declared properties.
    Object(Vec<(String, Schema)>),
}

/// A parsed JSON value. Numbers carry no value: only their kind is checked.
#[derive(Debug)]
pub enum Json {
    Null,
    Bool(bool),
    Number,
    Str(String),
    Array(Vec<Json>),
    Object(Vec<(String, Json)>),
}

} // verus!
