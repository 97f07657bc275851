//! The process-wide context: the built-in prototype graph and the object
//! factories. The graph is bootstrapped prototypes-first: `Object.prototype`
//! has no prototype, `Function.prototype` hangs off it, and the built-in
//! function objects hang off `Function.prototype`.

#![allow(non_snake_case)]

use vstd::prelude::*;

use crate::code::{code_wf, Code};
use crate::function::{Function, FunctionPayload, PrimKind};
use crate::heap::{heap_wf, obj_refs_ok, Heap};
use crate::objects::{own_prop, Object, ObjectPayload, Property, Regular};
use crate::value::Value;

verus! {

/// The heap slots of the built-in prototype graph.
pub struct Context {
    pub Object_prototype: usize,
    pub Object_function: usize,
    pub Function_prototype: usize,
    pub Function_function: usize,
    pub Number_prototype: usize,
    pub Number_function: usize,
    pub String_prototype: usize,
    pub String_function: usize,
}

/// Whether a function object's payload is the given primitive routine with
/// the given constructor and instance prototype.
pub open spec fn is_primitive_fn(o: Object, func: PrimKind, ctor: PrimKind, proto: int) -> bool {
    o.payload matches ObjectPayload::Function(f) && (f.payload
        matches FunctionPayload::Primitive(d) && d.func == func && (d.constructor_metadata
        matches Some(m) && m.constructor == ctor && m.prototype == proto))
}

/// Whether a function object's payload is the given primitive routine with no
/// constructor.
pub open spec fn is_builtin_fn(o: Object, func: PrimKind) -> bool {
    o.payload matches ObjectPayload::Function(f) && (f.payload
        matches FunctionPayload::Primitive(d) && d.func == func && d.constructor_metadata is None)
}

/// Whether an object owns a plain property holding the given value.
pub open spec fn has_own_value(o: Object, key: Seq<char>, v: Value) -> bool {
    own_prop(o, key) matches Some(p) && p.value == v
}

/// The context indices are in range of the heap.
pub open spec fn ctx_in_range(ctx: Context, h: Seq<Object>) -> bool {
    &&& ctx.Object_prototype < h.len()
    &&& ctx.Object_function < h.len()
    &&& ctx.Function_prototype < h.len()
    &&& ctx.Function_function < h.len()
    &&& ctx.Number_prototype < h.len()
    &&& ctx.Number_function < h.len()
    &&& ctx.String_prototype < h.len()
    &&& ctx.String_function < h.len()
}

/// The shape `Context::new` establishes: the prototype graph of the
/// built-ins, the `prototype` property of each built-in constructor, and the
/// `toString` / `valueOf` methods of the three prototypes.
pub open spec fn initial_context(ctx: Context, h: Seq<Object>) -> bool {
    &&& h.len() == 14
    &&& heap_wf(h)
    &&& ctx.Object_prototype == 0
    &&& ctx.Function_prototype == 1
    &&& ctx.Function_function == 2
    &&& ctx.Object_function == 3
    &&& ctx.Number_prototype == 4
    &&& ctx.Number_function == 5
    &&& ctx.String_prototype == 6
    &&& ctx.String_function == 7
    // Object.prototype ends every chain; the other prototypes hang off it.
    &&& h[0].__proto__ is None
    &&& h[1].__proto__ == Some(0usize)
    &&& h[4].__proto__ == Some(0usize)
    &&& h[6].__proto__ == Some(0usize)
    // Every built-in function object hangs off Function.prototype.
    &&& h[2].__proto__ == Some(1usize)
    &&& h[3].__proto__ == Some(1usize)
    &&& h[5].__proto__ == Some(1usize)
    &&& h[7].__proto__ == Some(1usize)
    // The prototypes are regular objects.
    &&& h[0].payload is Regular
    &&& h[1].payload is Regular
    &&& h[4].payload is Regular
    &&& h[6].payload is Regular
    // The built-in constructors and their instance prototypes.
    &&& is_primitive_fn(h[2], PrimKind::FunctionFunction, PrimKind::FunctionConstructor, 1)
    &&& is_primitive_fn(h[3], PrimKind::ObjectFunction, PrimKind::ObjectConstructor, 0)
    &&& is_primitive_fn(h[5], PrimKind::NumberFunction, PrimKind::NumberConstructor, 4)
    &&& is_primitive_fn(h[7], PrimKind::StringFunction, PrimKind::StringConstructor, 6)
    &&& has_own_value(h[2], "prototype"@, Value::Object(1))
    &&& has_own_value(h[3], "prototype"@, Value::Object(0))
    &&& has_own_value(h[5], "prototype"@, Value::Object(4))
    &&& has_own_value(h[7], "prototype"@, Value::Object(6))
    // The methods installed on the prototypes.
    &&& has_own_value(h[0], "valueOf"@, Value::Object(8))
    &&& has_own_value(h[0], "toString"@, Value::Object(9))
    &&& has_own_value(h[4], "valueOf"@, Value::Object(10))
    &&& has_own_value(h[4], "toString"@, Value::Object(11))
    &&& has_own_value(h[6], "valueOf"@, Value::Object(12))
    &&& has_own_value(h[6], "toString"@, Value::Object(13))
    &&& is_builtin_fn(h[8], PrimKind::ObjectValueOf)
    &&& is_builtin_fn(h[9], PrimKind::ObjectToString)
    &&& is_builtin_fn(h[10], PrimKind::NumberValueOf)
    &&& is_builtin_fn(h[11], PrimKind::NumberToString)
    &&& is_builtin_fn(h[12], PrimKind::StringValueOf)
    &&& is_builtin_fn(h[13], PrimKind::StringToString)
    &&& forall|i: int| 8 <= i < 14 ==> (#[trigger] h[i].__proto__) == Some(1usize)
}

fn make_regular(proto: Option<usize>) -> (r: Object)
    ensures
        r.__proto__ == proto,
        r.payload is Regular,
        r.props@ == Seq::<(String, Property)>::empty(),
{
    Object { __proto__: proto, payload: ObjectPayload::Regular(Regular), props: Vec::new() }
}

impl Context {
    /// Builds the prototype graph.
    pub fn new() -> (r: (Context, Heap))
        ensures
            initial_context(r.0, r.1@),
    {
        let mut heap = Heap::new();
        let Object_prototype = heap.add_object(make_regular(None));
        let Function_prototype = heap.add_object(make_regular(Some(Object_prototype)));
        let Function_function = Self::build_Function_function(&mut heap, Function_prototype);
        let Object_function = Self::build_Object_function(
            &mut heap,
            Function_prototype,
            Object_prototype,
        );
        let Number_prototype = heap.add_object(make_regular(Some(Object_prototype)));
        let Number_function = Self::build_Number_function(
            &mut heap,
            Function_prototype,
            Number_prototype,
        );
        let String_prototype = heap.add_object(make_regular(Some(Object_prototype)));
        let String_function = Self::build_String_function(
            &mut heap,
            Function_prototype,
            String_prototype,
        );
        let ctx = Context {
            Object_prototype,
            Object_function,
            Function_prototype,
            Function_function,
            Number_prototype,
            Number_function,
            String_prototype,
            String_function,
        };
        ctx.init_Object_prototype(&mut heap);
        ctx.init_Number_prototype(&mut heap);
        ctx.init_String_prototype(&mut heap);
        proof {
            reveal_strlit("prototype");
            reveal_strlit("valueOf");
            reveal_strlit("toString");
        }
        (ctx, heap)
    }

    /// The `Function` built-in: a primitive function whose instance prototype
    /// is `Function.prototype`.
    fn build_Function_function(heap: &mut Heap, Function_prototype: usize) -> (r: usize)
        requires
            heap_wf(old(heap)@),
            Function_prototype < old(heap)@.len(),
        ensures
            r == old(heap)@.len(),
            final(heap)@.len() == old(heap)@.len() + 1,
            heap_wf(final(heap)@),
            forall|j: int| 0 <= j < old(heap)@.len() ==> final(heap)@[j] == old(heap)@[j],
            final(heap)@[r as int].__proto__ == Some(Function_prototype),
            is_primitive_fn(
                final(heap)@[r as int],
                PrimKind::FunctionFunction,
                PrimKind::FunctionConstructor,
                Function_prototype as int,
            ),
            has_own_value(final(heap)@[r as int], "prototype"@, Value::Object(Function_prototype)),
    {
        Self::new_PrimitiveFunction(
            heap,
            Function_prototype,
            Function_prototype,
            "Function".to_owned(),
            PrimKind::FunctionFunction,
            PrimKind::FunctionConstructor,
            0,
        )
    }

    /// The `Object` built-in: a primitive function whose instance prototype
    /// is `Object.prototype`.
    fn build_Object_function(
        heap: &mut Heap,
        Function_prototype: usize,
        Object_prototype: usize,
    ) -> (r: usize)
        requires
            heap_wf(old(heap)@),
            Function_prototype < old(heap)@.len(),
            Object_prototype < old(heap)@.len(),
        ensures
            r == old(heap)@.len(),
            final(heap)@.len() == old(heap)@.len() + 1,
            heap_wf(final(heap)@),
            forall|j: int| 0 <= j < old(heap)@.len() ==> final(heap)@[j] == old(heap)@[j],
            final(heap)@[r as int].__proto__ == Some(Function_prototype),
            is_primitive_fn(
                final(heap)@[r as int],
                PrimKind::ObjectFunction,
                PrimKind::ObjectConstructor,
                Object_prototype as int,
            ),
            has_own_value(final(heap)@[r as int], "prototype"@, Value::Object(Object_prototype)),
    {
        Self::new_PrimitiveFunction(
            heap,
            Function_prototype,
            Object_prototype,
            "Object".to_owned(),
            PrimKind::ObjectFunction,
            PrimKind::ObjectConstructor,
            0,
        )
    }

    /// The `Number` built-in.
    fn build_Number_function(
        heap: &mut Heap,
        Function_prototype: usize,
        Number_prototype: usize,
    ) -> (r: usize)
        requires
            heap_wf(old(heap)@),
            Function_prototype < old(heap)@.len(),
            Number_prototype < old(heap)@.len(),
        ensures
            r == old(heap)@.len(),
            final(heap)@.len() == old(heap)@.len() + 1,
            heap_wf(final(heap)@),
            forall|j: int| 0 <= j < old(heap)@.len() ==> final(heap)@[j] == old(heap)@[j],
            final(heap)@[r as int].__proto__ == Some(Function_prototype),
            is_primitive_fn(
                final(heap)@[r as int],
                PrimKind::NumberFunction,
                PrimKind::NumberConstructor,
                Number_prototype as int,
            ),
            has_own_value(final(heap)@[r as int], "prototype"@, Value::Object(Number_prototype)),
    {
        Self::new_PrimitiveFunction(
            heap,
            Function_prototype,
            Number_prototype,
            "Number".to_owned(),
            PrimKind::NumberFunction,
            PrimKind::NumberConstructor,
            0,
        )
    }

    /// The `String` built-in.
    fn build_String_function(
        heap: &mut Heap,
        Function_prototype: usize,
        String_prototype: usize,
    ) -> (r: usize)
        requires
            heap_wf(old(heap)@),
            Function_prototype < old(heap)@.len(),
            String_prototype < old(heap)@.len(),
        ensures
            r == old(heap)@.len(),
            final(heap)@.len() == old(heap)@.len() + 1,
            heap_wf(final(heap)@),
            forall|j: int| 0 <= j < old(heap)@.len() ==> final(heap)@[j] == old(heap)@[j],
            final(heap)@[r as int].__proto__ == Some(Function_prototype),
            is_primitive_fn(
                final(heap)@[r as int],
                PrimKind::StringFunction,
                PrimKind::StringConstructor,
                String_prototype as int,
            ),
            has_own_value(final(heap)@[r as int], "prototype"@, Value::Object(String_prototype)),
    {
        Self::new_PrimitiveFunction(
            heap,
            Function_prototype,
            String_prototype,
            "String".to_owned(),
            PrimKind::StringFunction,
            PrimKind::StringConstructor,
            0,
        )
    }

    /// Installs `valueOf` and `toString` on `Object.prototype`.
    fn init_Object_prototype(&self, heap: &mut Heap)
        requires
            heap_wf(old(heap)@),
            self.Object_prototype < old(heap)@.len(),
            self.Function_prototype < old(heap)@.len(),
        ensures
            final(heap)@.len() == old(heap)@.len() + 2,
            heap_wf(final(heap)@),
            forall|j: int| 0 <= j < old(heap)@.len() && j != self.Object_prototype ==> final(heap)@[j] == old(heap)@[j],
            final(heap)@[self.Object_prototype as int].__proto__ == old(heap)@[self.Object_prototype as int].__proto__,
            final(heap)@[self.Object_prototype as int].payload == old(heap)@[self.Object_prototype as int].payload,
            has_own_value(
                final(heap)@[self.Object_prototype as int],
                "valueOf"@,
                Value::Object(old(heap)@.len() as usize),
            ),
            has_own_value(
                final(heap)@[self.Object_prototype as int],
                "toString"@,
                Value::Object((old(heap)@.len() + 1) as usize),
            ),
            forall|k: Seq<char>|
                k != "valueOf"@ && k != "toString"@ ==> #[trigger] own_prop(
                    final(heap)@[self.Object_prototype as int],
                    k,
                ) == own_prop(old(heap)@[self.Object_prototype as int], k),
            is_builtin_fn(final(heap)@[old(heap)@.len() as int], PrimKind::ObjectValueOf),
            is_builtin_fn(final(heap)@[old(heap)@.len() as int + 1], PrimKind::ObjectToString),
            final(heap)@[old(heap)@.len() as int].__proto__ == Some(self.Function_prototype),
            final(heap)@[old(heap)@.len() as int + 1].__proto__ == Some(self.Function_prototype),
    {
        proof {
            reveal_strlit("valueOf");
            reveal_strlit("toString");
        }
        let valueOf = self.new_BuiltinFunction(heap, "valueOf".to_owned(), PrimKind::ObjectValueOf, 0);
        let toString = self.new_BuiltinFunction(
            heap,
            "toString".to_owned(),
            PrimKind::ObjectToString,
            0,
        );
        heap.Put(self.Object_prototype, "valueOf".to_owned(), Value::Object(valueOf));
        proof {
            assert("valueOf"@.len() == 7);
            assert("toString"@.len() == 8);
            assert("valueOf"@ != "toString"@);
            assert(has_own_value(
                heap@[self.Object_prototype as int],
                "valueOf"@,
                Value::Object(valueOf),
            ));
        }
        heap.Put(self.Object_prototype, "toString".to_owned(), Value::Object(toString));
    }

    /// Installs `valueOf` and `toString` on `Number.prototype`.
    fn init_Number_prototype(&self, heap: &mut Heap)
        requires
            heap_wf(old(heap)@),
            self.Number_prototype < old(heap)@.len(),
            self.Function_prototype < old(heap)@.len(),
        ensures
            final(heap)@.len() == old(heap)@.len() + 2,
            heap_wf(final(heap)@),
            forall|j: int| 0 <= j < old(heap)@.len() && j != self.Number_prototype ==> final(heap)@[j] == old(heap)@[j],
            final(heap)@[self.Number_prototype as int].__proto__ == old(heap)@[self.Number_prototype as int].__proto__,
            final(heap)@[self.Number_prototype as int].payload == old(heap)@[self.Number_prototype as int].payload,
            has_own_value(
                final(heap)@[self.Number_prototype as int],
                "valueOf"@,
                Value::Object(old(heap)@.len() as usize),
            ),
            has_own_value(
                final(heap)@[self.Number_prototype as int],
                "toString"@,
                Value::Object((old(heap)@.len() + 1) as usize),
            ),
            forall|k: Seq<char>|
                k != "valueOf"@ && k != "toString"@ ==> #[trigger] own_prop(
                    final(heap)@[self.Number_prototype as int],
                    k,
                ) == own_prop(old(heap)@[self.Number_prototype as int], k),
            is_builtin_fn(final(heap)@[old(heap)@.len() as int], PrimKind::NumberValueOf),
            is_builtin_fn(final(heap)@[old(heap)@.len() as int + 1], PrimKind::NumberToString),
            final(heap)@[old(heap)@.len() as int].__proto__ == Some(self.Function_prototype),
            final(heap)@[old(heap)@.len() as int + 1].__proto__ == Some(self.Function_prototype),
    {
        proof {
            reveal_strlit("valueOf");
            reveal_strlit("toString");
        }
        let valueOf = self.new_BuiltinFunction(heap, "valueOf".to_owned(), PrimKind::NumberValueOf, 0);
        let toString = self.new_BuiltinFunction(
            heap,
            "toString".to_owned(),
            PrimKind::NumberToString,
            0,
        );
        heap.Put(self.Number_prototype, "valueOf".to_owned(), Value::Object(valueOf));
        proof {
            assert("valueOf"@.len() == 7);
            assert("toString"@.len() == 8);
            assert("valueOf"@ != "toString"@);
            assert(has_own_value(
                heap@[self.Number_prototype as int],
                "valueOf"@,
                Value::Object(valueOf),
            ));
        }
        heap.Put(self.Number_prototype, "toString".to_owned(), Value::Object(toString));
    }

    /// Installs `valueOf` and `toString` on `String.prototype`.
    fn init_String_prototype(&self, heap: &mut Heap)
        requires
            heap_wf(old(heap)@),
            self.String_prototype < old(heap)@.len(),
            self.Function_prototype < old(heap)@.len(),
        ensures
            final(heap)@.len() == old(heap)@.len() + 2,
            heap_wf(final(heap)@),
            forall|j: int| 0 <= j < old(heap)@.len() && j != self.String_prototype ==> final(heap)@[j] == old(heap)@[j],
            final(heap)@[self.String_prototype as int].__proto__ == old(heap)@[self.String_prototype as int].__proto__,
            final(heap)@[self.String_prototype as int].payload == old(heap)@[self.String_prototype as int].payload,
            has_own_value(
                final(heap)@[self.String_prototype as int],
                "valueOf"@,
                Value::Object(old(heap)@.len() as usize),
            ),
            has_own_value(
                final(heap)@[self.String_prototype as int],
                "toString"@,
                Value::Object((old(heap)@.len() + 1) as usize),
            ),
            forall|k: Seq<char>|
                k != "valueOf"@ && k != "toString"@ ==> #[trigger] own_prop(
                    final(heap)@[self.String_prototype as int],
                    k,
                ) == own_prop(old(heap)@[self.String_prototype as int], k),
            is_builtin_fn(final(heap)@[old(heap)@.len() as int], PrimKind::StringValueOf),
            is_builtin_fn(final(heap)@[old(heap)@.len() as int + 1], PrimKind::StringToString),
            final(heap)@[old(heap)@.len() as int].__proto__ == Some(self.Function_prototype),
            final(heap)@[old(heap)@.len() as int + 1].__proto__ == Some(self.Function_prototype),
    {
        proof {
            reveal_strlit("valueOf");
            reveal_strlit("toString");
        }
        let valueOf = self.new_BuiltinFunction(heap, "valueOf".to_owned(), PrimKind::StringValueOf, 0);
        let toString = self.new_BuiltinFunction(
            heap,
            "toString".to_owned(),
            PrimKind::StringToString,
            0,
        );
        heap.Put(self.String_prototype, "valueOf".to_owned(), Value::Object(valueOf));
        proof {
            assert("valueOf"@.len() == 7);
            assert("toString"@.len() == 8);
            assert("valueOf"@ != "toString"@);
            assert(has_own_value(
                heap@[self.String_prototype as int],
                "valueOf"@,
                Value::Object(valueOf),
            ));
        }
        heap.Put(self.String_prototype, "toString".to_owned(), Value::Object(toString));
    }
}

impl Context {
    /// A fresh number wrapper object, prototype `Number.prototype`.
    pub fn new_Number(&self, heap: &mut Heap, value: u64) -> (r: usize)
        requires
            heap_wf(old(heap)@),
            self.Number_prototype < old(heap)@.len(),
        ensures
            r == old(heap)@.len(),
            final(heap)@.len() == old(heap)@.len() + 1,
            heap_wf(final(heap)@),
            forall|j: int| 0 <= j < old(heap)@.len() ==> final(heap)@[j] == old(heap)@[j],
            final(heap)@[r as int].__proto__ == Some(self.Number_prototype),
            final(heap)@[r as int].payload matches ObjectPayload::Number(n) && n.value == value,
            final(heap)@[r as int].props@ == Seq::<(String, Property)>::empty(),
    {
        let o = Object {
            __proto__: Some(self.Number_prototype),
            payload: ObjectPayload::Number(crate::number::Number::new(value)),
            props: Vec::new(),
        };
        heap.add_object(o)
    }

    /// A fresh string wrapper object, prototype `String.prototype`.
    pub fn new_String(&self, heap: &mut Heap, value: String) -> (r: usize)
        requires
            heap_wf(old(heap)@),
            self.String_prototype < old(heap)@.len(),
        ensures
            r == old(heap)@.len(),
            final(heap)@.len() == old(heap)@.len() + 1,
            heap_wf(final(heap)@),
            forall|j: int| 0 <= j < old(heap)@.len() ==> final(heap)@[j] == old(heap)@[j],
            final(heap)@[r as int].__proto__ == Some(self.String_prototype),
            final(heap)@[r as int].payload matches ObjectPayload::String(s) && s.value == value,
            final(heap)@[r as int].props@ == Seq::<(String, Property)>::empty(),
    {
        let o = Object {
            __proto__: Some(self.String_prototype),
            payload: ObjectPayload::String(crate::string::String::new(value)),
            props: Vec::new(),
        };
        heap.add_object(o)
    }

    /// A fresh regular object with the given prototype.
    pub fn new_Object(&self, heap: &mut Heap, __proto__: Option<usize>) -> (r: usize)
        requires
            heap_wf(old(heap)@),
            __proto__ matches Some(p) ==> p < old(heap)@.len(),
        ensures
            r == old(heap)@.len(),
            final(heap)@.len() == old(heap)@.len() + 1,
            heap_wf(final(heap)@),
            forall|j: int| 0 <= j < old(heap)@.len() ==> final(heap)@[j] == old(heap)@[j],
            final(heap)@[r as int].__proto__ == __proto__,
            final(heap)@[r as int].payload is Regular,
            final(heap)@[r as int].props@ == Seq::<(String, Property)>::empty(),
    {
        heap.add_object(make_regular(__proto__))
    }

    /// A fresh user function object: its prototype link is
    /// `Function.prototype`, its instance prototype is a fresh regular object
    /// hanging off `Object.prototype`, and its own `prototype` property holds
    /// that object.
    pub fn new_Function(&self, heap: &mut Heap, name: String, code: Code, length: usize) -> (r:
        usize)
        requires
            heap_wf(old(heap)@),
            self.Object_prototype < old(heap)@.len(),
            self.Function_prototype < old(heap)@.len(),
            code_wf(code),
        ensures
            r == old(heap)@.len() + 1,
            final(heap)@.len() == old(heap)@.len() + 2,
            heap_wf(final(heap)@),
            forall|j: int| 0 <= j < old(heap)@.len() ==> final(heap)@[j] == old(heap)@[j],
            final(heap)@[r as int].__proto__ == Some(self.Function_prototype),
            final(heap)@[r as int].payload matches ObjectPayload::Function(f) && (f.payload
                matches FunctionPayload::UserDefined(d) && d.code == code && d.prototype == old(heap)@.len() && f.length == length),
            has_own_value(final(heap)@[r as int], "prototype"@, Value::Object(
                old(heap)@.len() as usize,
            )),
            final(heap)@[old(heap)@.len() as int].__proto__ == Some(self.Object_prototype),
            final(heap)@[old(heap)@.len() as int].payload is Regular,
            own_prop(final(heap)@[old(heap)@.len() as int], "prototype"@) is None,
    {
        let prototype = self.new_Object(heap, Some(self.Object_prototype));
        let f = Object {
            __proto__: Some(self.Function_prototype),
            payload: ObjectPayload::Function(
                Function::new_userdefined(code, name, length, prototype),
            ),
            props: Vec::new(),
        };
        let r = heap.add_object(f);
        heap.Put(r, "prototype".to_owned(), Value::Object(prototype));
        r
    }

    /// A fresh primitive function object with a constructor: its own
    /// `prototype` property holds the instance prototype handed in.
    pub fn new_PrimitiveFunction(
        heap: &mut Heap,
        Function_prototype: usize,
        prototype: usize,
        name: String,
        func: PrimKind,
        constructor: PrimKind,
        length: usize,
    ) -> (r: usize)
        requires
            heap_wf(old(heap)@),
            Function_prototype < old(heap)@.len(),
            prototype < old(heap)@.len(),
        ensures
            r == old(heap)@.len(),
            final(heap)@.len() == old(heap)@.len() + 1,
            heap_wf(final(heap)@),
            forall|j: int| 0 <= j < old(heap)@.len() ==> final(heap)@[j] == old(heap)@[j],
            final(heap)@[r as int].__proto__ == Some(Function_prototype),
            is_primitive_fn(final(heap)@[r as int], func, constructor, prototype as int),
            has_own_value(final(heap)@[r as int], "prototype"@, Value::Object(prototype)),
    {
        let o = Object {
            __proto__: Some(Function_prototype),
            payload: ObjectPayload::Function(
                Function::new_primitive(name, func, constructor, length, prototype),
            ),
            props: Vec::new(),
        };
        let r = heap.add_object(o);
        heap.Put(r, "prototype".to_owned(), Value::Object(prototype));
        r
    }

    /// A fresh primitive function object on which `new` is an error, with no
    /// own properties.
    pub fn new_BuiltinFunction(&self, heap: &mut Heap, name: String, func: PrimKind, length: usize)
        -> (r: usize)
        requires
            heap_wf(old(heap)@),
            self.Function_prototype < old(heap)@.len(),
        ensures
            r == old(heap)@.len(),
            final(heap)@.len() == old(heap)@.len() + 1,
            heap_wf(final(heap)@),
            forall|j: int| 0 <= j < old(heap)@.len() ==> final(heap)@[j] == old(heap)@[j],
            final(heap)@[r as int].__proto__ == Some(self.Function_prototype),
            is_builtin_fn(final(heap)@[r as int], func),
            final(heap)@[r as int].props@ == Seq::<(String, Property)>::empty(),
    {
        let o = Object {
            __proto__: Some(self.Function_prototype),
            payload: ObjectPayload::Function(Function::new_builtin(name, func, length)),
            props: Vec::new(),
        };
        heap.add_object(o)
    }
}

} // verus!
