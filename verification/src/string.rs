//! The payload of a string wrapper object.

use vstd::prelude::*;

use crate::value::Value;

verus! {

/// The boxed text of a string wrapper object.
pub struct String {
    pub value: std::string::String,
}

impl String {
    pub fn new(value: std::string::String) -> (r: Self)
        ensures
            r.value == value,
    {
        String { value }
    }

    /// The boxed text, as a primitive value.
    #[allow(non_snake_case)]
    pub fn valueOf(&self) -> (r: Value)
        ensures
            r == Value::String(self.value),
    {
        Value::String(self.value.clone())
    }

    /// Same as [`String::valueOf`]: the boxed text.
    #[allow(non_snake_case)]
    pub fn toString(&self) -> (r: Value)
        ensures
            r == Value::String(self.value),
    {
        Value::String(self.value.clone())
    }
}

} // verus!
