//! The object protocol, the prototype graph, and the receiver-dependent
//! built-ins.

use jsvm::context::Context;
use jsvm::function::PrimKind;
use jsvm::objects::{Object, ObjectPayload, Property, Regular};
use jsvm::value::Value;
use jsvm::vm::VM;

const FUEL: u64 = 100_000;

fn fresh_vm() -> VM {
    let (ctx, heap) = Context::new();
    let code = jsvm::code::Code::new(Vec::new(), Vec::new(), Vec::new());
    VM::new(code, ctx, heap)
}

#[test]
fn get_walks_the_prototype_chain() {
    let mut vm = fresh_vm();
    let parent = vm.ctx.new_Object(&mut vm.heap, Some(vm.ctx.Object_prototype));
    vm.heap.Put(parent, "x".to_string(), Value::Number(1.0f64.to_bits()));
    let child = vm.ctx.new_Object(&mut vm.heap, Some(parent));
    // The child has no own slot, so the parent's is found.
    match vm.heap.Get(child, &"x".to_string()) {
        Value::Number(b) => assert_eq!(b, 1.0f64.to_bits()),
        _ => panic!("expected the inherited slot"),
    }
    // A missing name ends in undefined.
    assert!(matches!(vm.heap.Get(child, &"y".to_string()), Value::Undefined));
    // An own slot shadows the chain.
    vm.heap.Put(child, "x".to_string(), Value::Number(2.0f64.to_bits()));
    match vm.heap.Get(child, &"x".to_string()) {
        Value::Number(b) => assert_eq!(b, 2.0f64.to_bits()),
        _ => panic!("expected the own slot"),
    }
    // The parent is untouched.
    match vm.heap.Get(parent, &"x".to_string()) {
        Value::Number(b) => assert_eq!(b, 1.0f64.to_bits()),
        _ => panic!("expected the parent's slot"),
    }
}

#[test]
fn has_property_walks_the_chain() {
    let mut vm = fresh_vm();
    let parent = vm.ctx.new_Object(&mut vm.heap, Some(vm.ctx.Object_prototype));
    vm.heap.Put(parent, "x".to_string(), Value::Boolean(true));
    let child = vm.ctx.new_Object(&mut vm.heap, Some(parent));
    assert!(vm.heap.HasProperty(child, &"x".to_string()));
    assert!(!vm.heap.HasProperty(child, &"missing".to_string()));
}

#[test]
fn can_put_respects_read_only_ancestors() {
    let mut vm = fresh_vm();
    let mut props: Vec<(String, Property)> = Vec::new();
    let mut locked = Property::new(Value::Boolean(true));
    locked.read_only = true;
    props.push(("x".to_string(), locked));
    let parent = vm.heap.add_object(Object {
        __proto__: None,
        payload: ObjectPayload::Regular(Regular),
        props,
    });
    let child = vm.ctx.new_Object(&mut vm.heap, Some(parent));
    assert!(!vm.heap.CanPut(parent, &"x".to_string()));
    assert!(!vm.heap.CanPut(child, &"x".to_string()));
    assert!(vm.heap.CanPut(child, &"y".to_string()));
    // An own writable slot does not override a read-only ancestor: any
    // holder of the name along the chain forbids the write.
    vm.heap.Put(child, "x".to_string(), Value::Boolean(false));
    assert!(!vm.heap.CanPut(child, &"x".to_string()));
}

#[test]
fn initial_prototype_graph() {
    let (ctx, heap) = Context::new();
    let h = &heap.objects;
    // Object.prototype ends every chain.
    assert!(h[ctx.Object_prototype].__proto__.is_none());
    assert_eq!(h[ctx.Function_prototype].__proto__, Some(ctx.Object_prototype));
    assert_eq!(h[ctx.Number_prototype].__proto__, Some(ctx.Object_prototype));
    assert_eq!(h[ctx.String_prototype].__proto__, Some(ctx.Object_prototype));
    // Every built-in function object hangs off Function.prototype.
    assert_eq!(h[ctx.Object_function].__proto__, Some(ctx.Function_prototype));
    assert_eq!(h[ctx.Function_function].__proto__, Some(ctx.Function_prototype));
    assert_eq!(h[ctx.Number_function].__proto__, Some(ctx.Function_prototype));
    assert_eq!(h[ctx.String_function].__proto__, Some(ctx.Function_prototype));
}

#[test]
fn builtin_constructors_own_their_prototype_property() {
    let (ctx, heap) = Context::new();
    let pairs = [
        (ctx.Object_function, ctx.Object_prototype),
        (ctx.Function_function, ctx.Function_prototype),
        (ctx.Number_function, ctx.Number_prototype),
        (ctx.String_function, ctx.String_prototype),
    ];
    for (f, proto) in pairs {
        match heap.Get(f, &"prototype".to_string()) {
            Value::Object(p) => assert_eq!(p, proto),
            _ => panic!("expected the prototype property"),
        }
    }
}

#[test]
fn construct_wires_the_instance_prototype() {
    let mut vm = fresh_vm();
    let code = jsvm::code::Code::new(Vec::new(), Vec::new(), Vec::new());
    let f = vm.ctx.new_Function(&mut vm.heap, "F".to_string(), code, 0);
    let proto = match vm.heap.Get(f, &"prototype".to_string()) {
        Value::Object(p) => p,
        _ => panic!("a user function owns a prototype property"),
    };
    let inst = match vm.Construct(f, Vec::new(), FUEL) {
        Ok(Value::Object(i)) => i,
        _ => panic!("construction should succeed"),
    };
    // The instance's prototype link is the function's instance prototype.
    assert_eq!(vm.heap.objects[inst].__proto__, Some(proto));
}

#[test]
fn number_value_of_unboxes_exactly() {
    let values = [0.0f64, 42.0, -1.5, 1e300, f64::MIN_POSITIVE];
    for d in values {
        let mut vm = fresh_vm();
        let boxed = vm.ctx.new_Number(&mut vm.heap, d.to_bits());
        vm.push_this(Value::Object(boxed));
        let r = vm.call_primitive(PrimKind::NumberValueOf, &Vec::new(), FUEL);
        match r {
            Ok(v) => assert!(v.loose_eq(&Value::Number(d.to_bits()))),
            _ => panic!("valueOf should succeed"),
        }
    }
}

#[test]
fn object_to_string_is_object_object() {
    let mut vm = fresh_vm();
    let o = vm.ctx.new_Object(&mut vm.heap, Some(vm.ctx.Object_prototype));
    vm.push_this(Value::Object(o));
    match vm.call_primitive(PrimKind::ObjectToString, &Vec::new(), FUEL) {
        Ok(Value::String(s)) => assert_eq!(s, "[object Object]"),
        _ => panic!("toString should succeed"),
    }
}

#[test]
fn object_value_of_returns_the_receiver() {
    let mut vm = fresh_vm();
    let o = vm.ctx.new_Object(&mut vm.heap, Some(vm.ctx.Object_prototype));
    vm.push_this(Value::Object(o));
    match vm.call_primitive(PrimKind::ObjectValueOf, &Vec::new(), FUEL) {
        Ok(Value::Object(i)) => assert_eq!(i, o),
        _ => panic!("valueOf should return the receiver"),
    }
}

#[test]
fn string_box_round_trip() {
    let mut vm = fresh_vm();
    let boxed = vm.ctx.new_String(&mut vm.heap, "hello".to_string());
    vm.push_this(Value::Object(boxed));
    match vm.call_primitive(PrimKind::StringValueOf, &Vec::new(), FUEL) {
        Ok(Value::String(s)) => assert_eq!(s, "hello"),
        _ => panic!("valueOf should unbox"),
    }
}

#[test]
fn number_box_to_string_renders_decimal() {
    let mut vm = fresh_vm();
    let boxed = vm.ctx.new_Number(&mut vm.heap, 2.5f64.to_bits());
    vm.push_this(Value::Object(boxed));
    match vm.call_primitive(PrimKind::NumberToString, &Vec::new(), FUEL) {
        Ok(Value::String(s)) => assert_eq!(s, "2.5"),
        _ => panic!("toString should render"),
    }
}

#[test]
fn calling_a_regular_object_fails() {
    let mut vm = fresh_vm();
    let o = vm.ctx.new_Object(&mut vm.heap, Some(vm.ctx.Object_prototype));
    match vm.Call(o, Vec::new(), FUEL) {
        Err(Value::String(s)) => assert_eq!(s, "Object not callable"),
        _ => panic!("a regular object is not callable"),
    }
}

#[test]
fn constructing_a_regular_object_fails() {
    let mut vm = fresh_vm();
    let o = vm.ctx.new_Object(&mut vm.heap, Some(vm.ctx.Object_prototype));
    match vm.Construct(o, Vec::new(), FUEL) {
        Err(Value::String(s)) => assert_eq!(s, "Object not constructible"),
        _ => panic!("a regular object is not constructible"),
    }
}
