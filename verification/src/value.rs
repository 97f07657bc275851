//! Runtime values: a tagged sum of the two singletons, booleans, IEEE-754
//! numbers (as raw bits), strings, and references to heap objects.

use vstd::prelude::*;

use crate::numbits;

verus! {

/// A runtime value. Two `Object` values are equal exactly when they reference
/// the same heap slot.
#[derive(Debug)]
pub enum Value {
    Null,
    Undefined,
    /// An IEEE-754 double, carried as its raw bits.
    Number(u64),
    Boolean(bool),
    String(std::string::String),
    /// An index into the heap.
    Object(usize),
}

impl Clone for Value {
    fn clone(&self) -> (r: Self)
        ensures
            r == *self,
    {
        match self {
            Value::Null => Value::Null,
            Value::Undefined => Value::Undefined,
            Value::Number(b) => Value::Number(*b),
            Value::Boolean(b) => Value::Boolean(*b),
            Value::String(s) => Value::String(s.clone()),
            Value::Object(i) => Value::Object(*i),
        }
    }
}

impl Value {
    /// Whether the value is not an object reference.
    pub open spec fn is_primitive(self) -> bool {
        !(self is Object)
    }

    /// Whether the value is a string.
    pub open spec fn spec_is_string(&self) -> bool {
        self is String
    }

    #[verifier::when_used_as_spec(spec_is_string)]
    pub fn is_String(&self) -> (r: bool)
        ensures
            r == self.spec_is_string(),
    {
        match self {
            Value::String(_) => true,
            _ => false,
        }
    }
}

/// `ToBoolean`: the two singletons are false, a number is false exactly when
/// it is NaN or a zero, a string is false exactly when it is empty, an object
/// is true.
pub open spec fn spec_to_boolean(v: Value) -> bool {
    match v {
        Value::Undefined => false,
        Value::Null => false,
        Value::Boolean(b) => b,
        Value::Number(n) => !(numbits::spec_is_nan(n) || numbits::spec_is_zero(n)),
        Value::String(s) => s@.len() > 0,
        Value::Object(_) => true,
    }
}

/// Loose equality of two values: NaN is not equal to itself, the two zeroes
/// are equal, values of one primitive kind compare by value, `null` equals
/// `undefined`, object references compare by identity, and any other mixed
/// pair is unequal.
pub open spec fn spec_value_eq(a: Value, b: Value) -> bool {
    match (a, b) {
        (Value::Number(n1), Value::Number(n2)) => numbits::spec_num_eq(n1, n2),
        (Value::Boolean(b1), Value::Boolean(b2)) => b1 == b2,
        (Value::String(s1), Value::String(s2)) => s1@ == s2@,
        (Value::Object(i), Value::Object(j)) => i == j,
        (Value::Undefined, Value::Undefined) => true,
        (Value::Null, Value::Null) => true,
        (Value::Undefined, Value::Null) => true,
        (Value::Null, Value::Undefined) => true,
        _ => false,
    }
}

impl Value {
    /// Total coercion to a boolean.
    pub fn ToBoolean(&self) -> (r: bool)
        ensures
            r == spec_to_boolean(*self),
    {
        match self {
            Value::Undefined => false,
            Value::Null => false,
            Value::Boolean(b) => *b,
            Value::Number(n) => !(numbits::is_nan(*n) || numbits::is_zero(*n)),
            Value::String(s) => !s.as_str().is_empty(),
            Value::Object(_) => true,
        }
    }

    /// Loose equality, total on all pairs of values.
    pub fn loose_eq(&self, other: &Value) -> (r: bool)
        ensures
            r == spec_value_eq(*self, *other),
    {
        match (self, other) {
            (Value::Number(n1), Value::Number(n2)) => numbits::num_eq(*n1, *n2),
            (Value::Boolean(b1), Value::Boolean(b2)) => b1 == b2,
            (Value::String(s1), Value::String(s2)) => s1.eq(s2),
            (Value::Object(i), Value::Object(j)) => i == j,
            (Value::Undefined, Value::Undefined) => true,
            (Value::Null, Value::Null) => true,
            (Value::Undefined, Value::Null) => true,
            (Value::Null, Value::Undefined) => true,
            _ => false,
        }
    }
}

/// `ToNumber` on a non-object value: `undefined` is NaN, `null` and `false`
/// are zero, `true` is one, a string parses as a numeric literal or is NaN.
/// (An object goes through `ToPrimitive` first and never reaches this; the
/// object arm is a NaN fallback.)
pub open spec fn spec_prim_to_num(v: Value) -> u64 {
    match v {
        Value::Undefined => numbits::NAN_BITS,
        Value::Null => numbits::ZERO_BITS,
        Value::Number(b) => b,
        Value::Boolean(b) => if b {
            numbits::ONE_BITS
        } else {
            numbits::ZERO_BITS
        },
        Value::String(s) => match numbits::spec_parse_number(s@) {
            Some(b) => b,
            None => numbits::NAN_BITS,
        },
        Value::Object(_) => numbits::NAN_BITS,
    }
}

/// `ToString` on a non-object value. (An object goes through `ToPrimitive`
/// first and never reaches this; the object arm is a fixed fallback.)
pub open spec fn spec_prim_to_str(v: Value) -> Seq<char> {
    match v {
        Value::Undefined => "undefined"@,
        Value::Null => "null"@,
        Value::Boolean(b) => if b {
            "true"@
        } else {
            "false"@
        },
        Value::Number(n) => numbits::spec_num_str(n),
        Value::String(s) => s@,
        Value::Object(_) => "object"@,
    }
}

/// Total coercion of a primitive to number bits; a string parses as a
/// numeric literal, and a failure is NaN.
pub fn prim_to_number(v: &Value) -> (r: u64)
    ensures
        r == spec_prim_to_num(*v),
{
    match v {
        Value::Undefined => numbits::NAN_BITS,
        Value::Null => numbits::ZERO_BITS,
        Value::Number(b) => *b,
        Value::Boolean(b) => if *b {
            numbits::ONE_BITS
        } else {
            numbits::ZERO_BITS
        },
        Value::String(s) => match numbits::parse_number_text(s.as_str()) {
            Some(b) => b,
            None => numbits::NAN_BITS,
        },
        Value::Object(_) => numbits::NAN_BITS,
    }
}

/// Total coercion of a primitive to text.
pub fn prim_to_string(v: &Value) -> (r: String)
    ensures
        r@ == spec_prim_to_str(*v),
{
    match v {
        Value::Undefined => "undefined".to_owned(),
        Value::Null => "null".to_owned(),
        Value::Boolean(b) => if *b {
            "true".to_owned()
        } else {
            "false".to_owned()
        },
        Value::Number(n) => numbits::num_to_string(*n),
        Value::String(s) => s.clone(),
        Value::Object(_) => "object".to_owned(),
    }
}

/// A number value equals itself exactly when it is not NaN: `valueOf` of a
/// boxed finite number therefore compares equal to the number it was built
/// from, and NaN never does.
pub proof fn lemma_number_self_equality(n: u64)
    ensures
        spec_value_eq(Value::Number(n), Value::Number(n)) == !numbits::spec_is_nan(n),
{
}

impl Default for Value {
    /// The default value is `undefined`.
    fn default() -> (r: Self)
        ensures
            r == Value::Undefined,
    {
        Value::Undefined
    }
}

} // verus!
