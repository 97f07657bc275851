//! The payload of a function object: either a user function holding compiled
//! code, or a primitive (host-implemented) function named by a dispatch tag.

use vstd::prelude::*;

use crate::code::Code;

verus! {

/// Which host-implemented routine a primitive function runs. The virtual
/// machine dispatches on this tag.
#[derive(Clone, Copy, PartialEq, Eq, Structural)]
pub enum PrimKind {
    /// `Object(...)` called as a function.
    ObjectFunction,
    /// `new Object(...)`.
    ObjectConstructor,
    /// `Function(...)` called as a function.
    FunctionFunction,
    /// `new Function(...)`.
    FunctionConstructor,
    /// `Number(...)` called as a function.
    NumberFunction,
    /// `new Number(...)`.
    NumberConstructor,
    /// `String(...)` called as a function.
    StringFunction,
    /// `new String(...)`.
    StringConstructor,
    /// `Object.prototype.toString`.
    ObjectToString,
    /// `Object.prototype.valueOf`.
    ObjectValueOf,
    /// `Number.prototype.toString`.
    NumberToString,
    /// `Number.prototype.valueOf`.
    NumberValueOf,
    /// `String.prototype.toString`.
    StringToString,
    /// `String.prototype.valueOf`.
    StringValueOf,
    /// The global `print`.
    Print,
}

/// A primitive constructor and the prototype its instances receive.
pub struct ConstructorMetaData {
    pub constructor: PrimKind,
    pub prototype: usize,
}

/// A user function's compiled body and the prototype its instances receive.
pub struct UserFunctionData {
    pub code: Code,
    pub prototype: usize,
}

/// What a function object runs when called.
pub enum FunctionPayload {
    UserDefined(UserFunctionData),
    Primitive(PrimitiveFunctionData),
}

/// A host routine, and constructor metadata when `new` is allowed on it.
pub struct PrimitiveFunctionData {
    pub func: PrimKind,
    pub constructor_metadata: Option<ConstructorMetaData>,
}

/// The payload of a function object.
pub struct Function {
    pub name: String,
    pub length: usize,
    pub payload: FunctionPayload,
}

impl Function {
    /// A user function over compiled code.
    pub fn new_userdefined(code: Code, name: String, length: usize, prototype: usize) -> (r: Self)
        ensures
            r.name == name,
            r.length == length,
            r.payload matches FunctionPayload::UserDefined(d) && d.code == code && d.prototype
                == prototype,
    {
        Function {
            name,
            length,
            payload: FunctionPayload::UserDefined(UserFunctionData { code, prototype }),
        }
    }

    /// A primitive function that may also be constructed.
    pub fn new_primitive(
        name: String,
        func: PrimKind,
        constructor: PrimKind,
        length: usize,
        prototype: usize,
    ) -> (r: Self)
        ensures
            r.name == name,
            r.length == length,
            r.payload matches FunctionPayload::Primitive(d) && d.func == func && (
            d.constructor_metadata matches Some(m) && m.constructor == constructor && m.prototype
                == prototype),
    {
        Function {
            name,
            length,
            payload: FunctionPayload::Primitive(
                PrimitiveFunctionData {
                    func,
                    constructor_metadata: Some(
                        ConstructorMetaData { constructor, prototype },
                    ),
                },
            ),
        }
    }

    /// A primitive function on which `new` is an error.
    pub fn new_builtin(name: String, func: PrimKind, length: usize) -> (r: Self)
        ensures
            r.name == name,
            r.length == length,
            r.payload matches FunctionPayload::Primitive(d) && d.func == func
                && d.constructor_metadata is None,
    {
        Function {
            name,
            length,
            payload: FunctionPayload::Primitive(
                PrimitiveFunctionData { func, constructor_metadata: None },
            ),
        }
    }
}

} // verus!
