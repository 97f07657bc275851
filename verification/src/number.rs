//! The payload of a number wrapper object.

use vstd::prelude::*;

use crate::numbits;
use crate::value::Value;

verus! {

/// The boxed IEEE-754 bits of a number wrapper object.
pub struct Number {
    pub value: u64,
}

impl Number {
    pub fn new(value: u64) -> (r: Self)
        ensures
            r.value == value,
    {
        Number { value }
    }

    /// The boxed number, as a primitive value.
    #[allow(non_snake_case)]
    pub fn valueOf(&self) -> (r: Value)
        ensures
            r == Value::Number(self.value),
    {
        Value::Number(self.value)
    }

    /// The decimal rendering of the boxed number.
    #[allow(non_snake_case)]
    pub fn toString(&self) -> (r: Value)
        ensures
            r matches Value::String(s) && s@ == numbits::spec_num_str(self.value),
    {
        Value::String(numbits::num_to_string(self.value))
    }
}

} // verus!
