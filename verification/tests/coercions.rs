//! The coercion algebra and loose equality on concrete values.

use jsvm::context::Context;
use jsvm::numbits;
use jsvm::value::{prim_to_number, prim_to_string, Value};
use jsvm::vm::VM;

const FUEL: u64 = 100_000;

fn fresh_vm() -> VM {
    let (ctx, heap) = Context::new();
    let code = jsvm::code::Code::new(Vec::new(), Vec::new(), Vec::new());
    VM::new(code, ctx, heap)
}

fn num(d: f64) -> Value {
    Value::Number(d.to_bits())
}

fn s(text: &str) -> Value {
    Value::String(text.to_string())
}

#[test]
fn to_boolean_is_total() {
    assert!(!Value::Undefined.ToBoolean());
    assert!(!Value::Null.ToBoolean());
    assert!(Value::Boolean(true).ToBoolean());
    assert!(!Value::Boolean(false).ToBoolean());
    assert!(!num(f64::NAN).ToBoolean());
    assert!(!num(0.0).ToBoolean());
    assert!(!num(-0.0).ToBoolean());
    assert!(num(1.5).ToBoolean());
    assert!(!s("").ToBoolean());
    assert!(s("x").ToBoolean());
    assert!(Value::Object(0).ToBoolean());
}

#[test]
fn prim_to_number_cases() {
    assert!(f64::from_bits(prim_to_number(&Value::Undefined)).is_nan());
    assert_eq!(prim_to_number(&Value::Null), 0);
    assert_eq!(prim_to_number(&Value::Boolean(true)), 1.0f64.to_bits());
    assert_eq!(prim_to_number(&Value::Boolean(false)), 0);
    assert_eq!(prim_to_number(&num(2.5)), 2.5f64.to_bits());
    assert_eq!(prim_to_number(&s("3.5")), 3.5f64.to_bits());
    assert_eq!(prim_to_number(&s("42")), 42.0f64.to_bits());
    // An unparseable string is NaN, not zero.
    assert!(f64::from_bits(prim_to_number(&s("abc"))).is_nan());
    assert!(f64::from_bits(prim_to_number(&s(""))).is_nan());
}

#[test]
fn prim_to_string_cases() {
    assert_eq!(prim_to_string(&Value::Undefined), "undefined");
    assert_eq!(prim_to_string(&Value::Null), "null");
    assert_eq!(prim_to_string(&Value::Boolean(true)), "true");
    assert_eq!(prim_to_string(&Value::Boolean(false)), "false");
    assert_eq!(prim_to_string(&s("hi")), "hi");
}

#[test]
fn number_rendering() {
    assert_eq!(numbits::num_to_string(f64::NAN.to_bits()), "NaN");
    assert_eq!(numbits::num_to_string(f64::INFINITY.to_bits()), "Infinity");
    assert_eq!(numbits::num_to_string(f64::NEG_INFINITY.to_bits()), "-Infinity");
    assert_eq!(numbits::num_to_string(0.0f64.to_bits()), "0");
    assert_eq!(numbits::num_to_string((-0.0f64).to_bits()), "0");
    assert_eq!(numbits::num_to_string(3.0f64.to_bits()), "3");
    assert_eq!(numbits::num_to_string((-5.0f64).to_bits()), "-5");
    assert_eq!(numbits::num_to_string(10000.0f64.to_bits()), "10000");
    assert_eq!(numbits::num_to_string(9007199254740993.0f64.to_bits()), "9007199254740992");
    assert_eq!(numbits::num_to_string(3.5f64.to_bits()), "3.5");
    assert_eq!(numbits::num_to_string(0.1f64.to_bits()), "0.1");
    assert_eq!(numbits::num_to_string((-0.25f64).to_bits()), "-0.25");
}

#[test]
fn string_number_round_trip() {
    // ToString(ToNumber(x)) gives x back for decimal texts in canonical form.
    for text in ["0", "1", "3", "42", "10000", "3.5", "0.1", "0.25", "-7", "123456789"] {
        let bits = prim_to_number(&s(text));
        assert_eq!(prim_to_string(&Value::Number(bits)), *text, "round trip of {}", text);
    }
}

#[test]
fn ieee_arithmetic_matches_hardware() {
    let a = 0.1f64;
    let b = 0.2f64;
    assert_eq!(numbits::add_bits(a.to_bits(), b.to_bits()), (a + b).to_bits());
    assert_eq!(numbits::sub_bits(a.to_bits(), b.to_bits()), (a - b).to_bits());
    assert!(f64::from_bits(numbits::add_bits(f64::NAN.to_bits(), 1.0f64.to_bits())).is_nan());
    assert!(f64::from_bits(numbits::sub_bits(1.0f64.to_bits(), f64::NAN.to_bits())).is_nan());
}

#[test]
fn loose_equality() {
    assert!(!num(f64::NAN).loose_eq(&num(f64::NAN)));
    assert!(num(0.0).loose_eq(&num(-0.0)));
    assert!(num(2.0).loose_eq(&num(2.0)));
    assert!(s("a").loose_eq(&s("a")));
    assert!(!s("a").loose_eq(&s("b")));
    assert!(Value::Null.loose_eq(&Value::Undefined));
    assert!(Value::Undefined.loose_eq(&Value::Null));
    assert!(Value::Undefined.loose_eq(&Value::Undefined));
    assert!(Value::Object(3).loose_eq(&Value::Object(3)));
    assert!(!Value::Object(3).loose_eq(&Value::Object(4)));
    // Mixed kinds do not compare equal in this core.
    assert!(!num(1.0).loose_eq(&s("1")));
    assert!(!Value::Boolean(true).loose_eq(&num(1.0)));
}

#[test]
fn vm_to_number_boxes_through_default_value() {
    let mut vm = fresh_vm();
    let boxed = vm.ctx.new_Number(&mut vm.heap, 6.5f64.to_bits());
    let r = vm.ToNumber(&Value::Object(boxed), FUEL);
    match r {
        Ok(Value::Number(b)) => assert_eq!(b, 6.5f64.to_bits()),
        _ => panic!("expected the boxed number back"),
    }
}

#[test]
fn vm_to_string_boxes_through_default_value() {
    let mut vm = fresh_vm();
    let boxed = vm.ctx.new_String(&mut vm.heap, "abc".to_string());
    let r = vm.ToString(&Value::Object(boxed), FUEL);
    match r {
        Ok(Value::String(t)) => assert_eq!(t, "abc"),
        _ => panic!("expected the boxed text back"),
    }
}

#[test]
fn vm_bin_add_concatenates_when_either_is_string() {
    let mut vm = fresh_vm();
    match vm.bin_add(&s("a"), &num(1.0), FUEL) {
        Ok(Value::String(t)) => assert_eq!(t, "a1"),
        _ => panic!("expected concatenation"),
    }
    match vm.bin_add(&num(2.0), &num(3.0), FUEL) {
        Ok(Value::Number(b)) => assert_eq!(b, 5.0f64.to_bits()),
        _ => panic!("expected a numeric sum"),
    }
    match vm.bin_add(&Value::Boolean(true), &Value::Null, FUEL) {
        Ok(Value::Number(b)) => assert_eq!(b, 1.0f64.to_bits()),
        _ => panic!("expected a numeric sum"),
    }
}

#[test]
fn vm_to_object_boxes_primitives() {
    let mut vm = fresh_vm();
    let o = match vm.ToObject(&num(7.0)) {
        Ok(o) => o,
        Err(_) => panic!("a number boxes"),
    };
    match vm.valueOf(o, FUEL) {
        Ok(Value::Number(b)) => assert_eq!(b, 7.0f64.to_bits()),
        _ => panic!("expected the boxed number"),
    }
    assert!(vm.ToObject(&Value::Undefined).is_err());
    assert!(vm.ToObject(&Value::Null).is_err());
}

#[test]
fn numeric_text_grammar() {
    // The signed infinity and NaN words are numbers.
    assert_eq!(prim_to_number(&s("Infinity")), f64::INFINITY.to_bits());
    assert_eq!(prim_to_number(&s("-Infinity")), f64::NEG_INFINITY.to_bits());
    assert_eq!(prim_to_number(&s("inf")), f64::INFINITY.to_bits());
    assert!(f64::from_bits(prim_to_number(&s("NaN"))).is_nan());
    // Exponent forms need at least one exponent digit.
    assert_eq!(prim_to_number(&s("1e3")), 1000.0f64.to_bits());
    assert_eq!(prim_to_number(&s("1E+3")), 1000.0f64.to_bits());
    assert!(f64::from_bits(prim_to_number(&s("5e"))).is_nan());
    assert!(f64::from_bits(prim_to_number(&s("5e+"))).is_nan());
    // A point needs a digit on at least one side.
    assert_eq!(prim_to_number(&s("3.")), 3.0f64.to_bits());
    assert_eq!(prim_to_number(&s(".5")), 0.5f64.to_bits());
    assert!(f64::from_bits(prim_to_number(&s("."))).is_nan());
    // Hexadecimal forms are not decimal literals.
    assert!(f64::from_bits(prim_to_number(&s("0x10"))).is_nan());
    assert!(f64::from_bits(prim_to_number(&s("0x1.8p1"))).is_nan());
    // Signs alone, or trailing text, are no numbers.
    assert!(f64::from_bits(prim_to_number(&s("-"))).is_nan());
    assert!(f64::from_bits(prim_to_number(&s("1x"))).is_nan());
    assert_eq!(prim_to_number(&s("-42")), (-42.0f64).to_bits());
}

#[test]
fn large_magnitudes_render_positionally() {
    // Integers past 2^64 still render as positional digits, up to twenty-one
    // places.
    assert_eq!(numbits::num_to_string(1e20f64.to_bits()), "100000000000000000000");
    assert_eq!(
        numbits::num_to_string(18446744073709551616.0f64.to_bits()),
        "18446744073709552000"
    );
    assert_eq!(numbits::num_to_string((-1e20f64).to_bits()), "-100000000000000000000");
    // Beyond twenty-one places the scientific rendering stays.
    assert!(numbits::num_to_string(1e22f64.to_bits()).contains('E'));
}
