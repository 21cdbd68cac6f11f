//! Values of JSON, as far as the rooms look into them.
use vstd::prelude::*;

verus! {

/// A value of JSON. Arrays and objects, which are only handed on, are kept as their text.
#[derive(Debug)]
pub enum Json {
    Null,
    Bool(bool),
    /// A number: the bits of a double, and the text that it is written as.
    Number { bits: u64, text: String },
    Text(String),
    Array(String),
    Object(String),
}

} // verus!
