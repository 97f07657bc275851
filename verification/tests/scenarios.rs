//! End-to-end runs: build a program, compile it, execute it, check what
//! `print` wrote.

use jsvm::ast::{BinaryOp, Expr, Program, Stmt};
use jsvm::codegen::gen_code;
use jsvm::context::Context;
use jsvm::value::Value;
use jsvm::vm::VM;

const FUEL: u64 = 100_000;

fn ident(name: &str) -> Expr {
    Expr::Ident(name.to_string())
}

fn number(text: &str) -> Expr {
    Expr::Number(text.to_string())
}

fn call(callee: Expr, args: Vec<Expr>) -> Expr {
    Expr::Call(Box::new(callee), args)
}

fn member(object: Expr, property: &str) -> Expr {
    Expr::Member(Box::new(object), Box::new(ident(property)))
}

fn binary(op: BinaryOp, l: Expr, r: Expr) -> Expr {
    Expr::Binary(op, Box::new(l), Box::new(r))
}

fn assign(target: Expr, value: Expr) -> Stmt {
    Stmt::Expr(Expr::Assign(Box::new(target), Box::new(value)))
}

fn print_stmt(arg: Expr) -> Stmt {
    Stmt::Expr(call(ident("print"), vec![arg]))
}

fn run_program(parts: Vec<Stmt>) -> (Result<Value, Value>, String) {
    let (ctx, mut heap) = Context::new();
    let program = Program { parts };
    let code = gen_code(&program, &ctx, &mut heap).expect("program should compile");
    let mut vm = VM::new(code, ctx, heap);
    let res = vm.run(FUEL);
    (res, vm.output)
}

#[test]
fn arithmetic_and_print() {
    // print(1 + 2);
    let (res, out) = run_program(vec![print_stmt(binary(
        BinaryOp::Plus,
        number("1"),
        number("2"),
    ))]);
    assert!(res.is_ok());
    assert_eq!(out, "3 \n");
}

#[test]
fn string_concatenation_via_plus() {
    // print("a" + 1);
    let (res, out) = run_program(vec![print_stmt(binary(
        BinaryOp::Plus,
        Expr::Str("a".to_string()),
        number("1"),
    ))]);
    assert!(res.is_ok());
    assert_eq!(out, "a1 \n");
}

#[test]
fn function_call_and_return() {
    // function add(a,b){ return a+b; } print(add(2,3));
    let (res, out) = run_program(vec![
        Stmt::FuncDecl(
            "add".to_string(),
            vec!["a".to_string(), "b".to_string()],
            vec![Stmt::Return(Some(binary(BinaryOp::Plus, ident("a"), ident("b"))))],
        ),
        print_stmt(call(ident("add"), vec![number("2"), number("3")])),
    ]);
    assert!(res.is_ok());
    assert_eq!(out, "5 \n");
}

#[test]
fn member_call_with_this() {
    // function F(){ this.x = 10; } var o = new F(); print(o.x);
    let (res, out) = run_program(vec![
        Stmt::FuncDecl(
            "F".to_string(),
            vec![],
            vec![assign(member(Expr::This, "x"), number("10"))],
        ),
        Stmt::Var(vec![("o".to_string(), Some(Expr::New(Box::new(ident("F")), vec![])))]),
        print_stmt(member(ident("o"), "x")),
    ]);
    assert!(res.is_ok());
    assert_eq!(out, "10 \n");
}

#[test]
fn prototype_chain() {
    // function F(){} F.prototype.hi = 7; var o = new F(); print(o.hi);
    let (res, out) = run_program(vec![
        Stmt::FuncDecl("F".to_string(), vec![], vec![]),
        assign(member(member(ident("F"), "prototype"), "hi"), number("7")),
        Stmt::Var(vec![("o".to_string(), Some(Expr::New(Box::new(ident("F")), vec![])))]),
        print_stmt(member(ident("o"), "hi")),
    ]);
    assert!(res.is_ok());
    assert_eq!(out, "7 \n");
}

#[test]
fn conditional() {
    // if (1 == 1) { print("y"); } else { print("n"); }
    let (res, out) = run_program(vec![Stmt::If(
        binary(BinaryOp::Equal, number("1"), number("1")),
        Box::new(Stmt::Block(vec![print_stmt(Expr::Str("y".to_string()))])),
        Some(Box::new(Stmt::Block(vec![print_stmt(Expr::Str("n".to_string()))]))),
    )]);
    assert!(res.is_ok());
    assert_eq!(out, "y \n");
}

#[test]
fn conditional_false_branch() {
    // if (1 == 2) { print("y"); } else { print("n"); }
    let (res, out) = run_program(vec![Stmt::If(
        binary(BinaryOp::Equal, number("1"), number("2")),
        Box::new(Stmt::Block(vec![print_stmt(Expr::Str("y".to_string()))])),
        Some(Box::new(Stmt::Block(vec![print_stmt(Expr::Str("n".to_string()))]))),
    )]);
    assert!(res.is_ok());
    assert_eq!(out, "n \n");
}

#[test]
fn constructor_instance_sees_number_value_of() {
    // var n = new Number(42); print(n.valueOf());
    let (res, out) = run_program(vec![
        Stmt::Var(vec![(
            "n".to_string(),
            Some(Expr::New(Box::new(ident("Number")), vec![number("42")])),
        )]),
        print_stmt(call(member(ident("n"), "valueOf"), vec![])),
    ]);
    assert!(res.is_ok());
    assert_eq!(out, "42 \n");
}

#[test]
fn object_to_string_via_prototype() {
    // var o = Object(); print(o.toString());
    let (res, out) = run_program(vec![
        Stmt::Var(vec![("o".to_string(), Some(call(ident("Object"), vec![])))]),
        print_stmt(call(member(ident("o"), "toString"), vec![])),
    ]);
    assert!(res.is_ok());
    assert_eq!(out, "[object Object] \n");
}

#[test]
fn subtraction_and_chained_calls() {
    // function dec(a){ return a - 1; } print(dec(dec(10)));
    let (res, out) = run_program(vec![
        Stmt::FuncDecl(
            "dec".to_string(),
            vec!["a".to_string()],
            vec![Stmt::Return(Some(binary(BinaryOp::Minus, ident("a"), number("1"))))],
        ),
        print_stmt(call(ident("dec"), vec![call(ident("dec"), vec![number("10")])])),
    ]);
    assert!(res.is_ok());
    assert_eq!(out, "8 \n");
}

#[test]
fn return_without_expression_yields_undefined() {
    // function f(){ return; } print(f());
    let (res, out) = run_program(vec![
        Stmt::FuncDecl("f".to_string(), vec![], vec![Stmt::Return(None)]),
        print_stmt(call(ident("f"), vec![])),
    ]);
    assert!(res.is_ok());
    assert_eq!(out, "undefined \n");
}

#[test]
fn missing_argument_is_undefined() {
    // function f(a,b){ return b; } print(f(1));
    let (res, out) = run_program(vec![
        Stmt::FuncDecl(
            "f".to_string(),
            vec!["a".to_string(), "b".to_string()],
            vec![Stmt::Return(Some(ident("b")))],
        ),
        print_stmt(call(ident("f"), vec![number("1")])),
    ]);
    assert!(res.is_ok());
    assert_eq!(out, "undefined \n");
}

#[test]
fn name_error_surfaces() {
    // print(zzz);
    let (res, out) = run_program(vec![print_stmt(ident("zzz"))]);
    match res {
        Err(Value::String(s)) => assert_eq!(s, "NameError: 'zzz' not found"),
        _ => panic!("expected a NameError"),
    }
    assert_eq!(out, "");
}

#[test]
fn calling_a_number_fails() {
    // var x = 1; x();
    let (res, _) = run_program(vec![
        Stmt::Var(vec![("x".to_string(), Some(number("1")))]),
        Stmt::Expr(call(ident("x"), vec![])),
    ]);
    match res {
        Err(Value::String(s)) => assert_eq!(s, "Object not callable"),
        _ => panic!("expected the call to fail"),
    }
}

#[test]
fn constructing_a_plain_builtin_fails() {
    // new print();
    let (res, _) = run_program(vec![Stmt::Expr(Expr::New(Box::new(ident("print")), vec![]))]);
    match res {
        Err(Value::String(s)) => assert_eq!(s, "Object is not constructible"),
        _ => panic!("expected the construction to fail"),
    }
}

#[test]
fn default_value_failure_is_runtime_error() {
    // function F(){} F.prototype.toString = function(){ return this; };
    // var o = new F(); print(o + 1);
    let (res, _) = run_program(vec![
        Stmt::FuncDecl("F".to_string(), vec![], vec![]),
        assign(
            member(member(ident("F"), "prototype"), "toString"),
            Expr::Func(None, vec![], vec![Stmt::Return(Some(Expr::This))]),
        ),
        Stmt::Var(vec![("o".to_string(), Some(Expr::New(Box::new(ident("F")), vec![])))]),
        print_stmt(binary(BinaryOp::Plus, ident("o"), number("1"))),
    ]);
    match res {
        Err(Value::String(s)) => assert_eq!(s, "runtime error"),
        _ => panic!("expected the coercion to fail"),
    }
}

#[test]
fn array_literal_is_reserved() {
    // [1, 2];
    let (res, _) = run_program(vec![Stmt::Expr(Expr::Array(vec![number("1"), number("2")]))]);
    match res {
        Err(Value::String(s)) => assert_eq!(s, "Unimplemented"),
        _ => panic!("expected the array to be rejected at run time"),
    }
}

#[test]
fn global_print_receives_many_arguments() {
    // print(1, "a", null);
    let (res, out) = run_program(vec![Stmt::Expr(call(
        ident("print"),
        vec![number("1"), Expr::Str("a".to_string()), Expr::Null],
    ))]);
    assert!(res.is_ok());
    assert_eq!(out, "1 a null \n");
}

#[test]
fn var_in_a_function_falls_through_to_the_global_scope() {
    // function f(){ var t = 3; return t; } print(f(), t);
    // Functions open no local scope in this core: `var` inside a body binds
    // globally, and only parameters resolve to argument slots.
    let (res, out) = run_program(vec![
        Stmt::FuncDecl(
            "f".to_string(),
            vec![],
            vec![
                Stmt::Var(vec![("t".to_string(), Some(number("3")))]),
                Stmt::Return(Some(ident("t"))),
            ],
        ),
        Stmt::Expr(call(ident("print"), vec![call(ident("f"), vec![]), ident("t")])),
    ]);
    assert!(res.is_ok());
    assert_eq!(out, "3 3 \n");
}

#[test]
fn equality_drives_the_conditional_with_strings() {
    // if ("a" == "a") { print(1); } else { print(2); }
    let (res, out) = run_program(vec![Stmt::If(
        binary(BinaryOp::Equal, Expr::Str("a".to_string()), Expr::Str("a".to_string())),
        Box::new(print_stmt(number("1"))),
        Some(Box::new(print_stmt(number("2")))),
    )]);
    assert!(res.is_ok());
    assert_eq!(out, "1 \n");
}

#[test]
fn empty_program_runs_to_undefined() {
    let (res, out) = run_program(vec![]);
    match res {
        Ok(Value::Undefined) => {}
        _ => panic!("an empty program yields undefined"),
    }
    assert_eq!(out, "");
}

#[test]
fn later_var_under_the_same_name_wins() {
    // var x = 1; var x = 2; print(x);
    let (res, out) = run_program(vec![
        Stmt::Var(vec![("x".to_string(), Some(number("1")))]),
        Stmt::Var(vec![("x".to_string(), Some(number("2")))]),
        print_stmt(ident("x")),
    ]);
    assert!(res.is_ok());
    assert_eq!(out, "2 \n");
}

#[test]
fn throw_unwinds_with_the_thrown_value() {
    // The compiler reserves Throw; a hand-built code unit exercises it.
    let code = jsvm::code::Code::new(
        vec![jsvm::code::Instruction::LoadConst(0), jsvm::code::Instruction::Throw],
        vec![Value::String("boom".to_string())],
        vec![],
    );
    let (ctx, heap) = Context::new();
    let mut vm = VM::new(code, ctx, heap);
    match vm.run(FUEL) {
        Err(Value::String(s)) => assert_eq!(s, "boom"),
        _ => panic!("expected the thrown value"),
    }
    assert_eq!(vm.throw_stack.len(), 1);
}

#[test]
fn fuel_exhaustion_is_a_runtime_error() {
    // Unbounded recursion runs out of budget instead of diverging.
    // function f(){ return f(); } f();
    let (ctx, mut heap) = Context::new();
    let program = Program {
        parts: vec![
            Stmt::FuncDecl(
                "f".to_string(),
                vec![],
                vec![Stmt::Return(Some(call(ident("f"), vec![])))],
            ),
            Stmt::Expr(call(ident("f"), vec![])),
        ],
    };
    let code = gen_code(&program, &ctx, &mut heap).expect("program should compile");
    let mut vm = VM::new(code, ctx, heap);
    match vm.run(500) {
        Err(Value::String(s)) => assert_eq!(s, "execution budget exhausted"),
        _ => panic!("expected the budget to run out"),
    }
}

#[test]
fn default_value_attempts_run_in_order_and_lazily() {
    // function F(){}
    // F.prototype.toString = function(){ return "t"; };
    // F.prototype.valueOf = function(){ this.marked = 1; return "v"; };
    // var o = new F(); print(o); print(o.marked);
    // With hint String the toString attempt succeeds, so valueOf never runs
    // and its side effect is not observed.
    let (res, out) = run_program(vec![
        Stmt::FuncDecl("F".to_string(), vec![], vec![]),
        assign(
            member(member(ident("F"), "prototype"), "toString"),
            Expr::Func(None, vec![], vec![Stmt::Return(Some(Expr::Str("t".to_string())))]),
        ),
        assign(
            member(member(ident("F"), "prototype"), "valueOf"),
            Expr::Func(
                None,
                vec![],
                vec![
                    assign(member(Expr::This, "marked"), number("1")),
                    Stmt::Return(Some(Expr::Str("v".to_string()))),
                ],
            ),
        ),
        Stmt::Var(vec![("o".to_string(), Some(Expr::New(Box::new(ident("F")), vec![])))]),
        print_stmt(ident("o")),
        print_stmt(member(ident("o"), "marked")),
    ]);
    assert!(res.is_ok());
    assert_eq!(out, "t \nundefined \n");
}

#[test]
fn default_value_number_hint_tries_value_of_first() {
    // The same prototype, consumed by `-`: the Number hint tries valueOf
    // first, so its side effect runs and its text is what the subtraction
    // coerces.
    let (res, out) = run_program(vec![
        Stmt::FuncDecl("F".to_string(), vec![], vec![]),
        assign(
            member(member(ident("F"), "prototype"), "valueOf"),
            Expr::Func(
                None,
                vec![],
                vec![
                    assign(member(Expr::This, "marked"), number("1")),
                    Stmt::Return(Some(Expr::Str("5".to_string()))),
                ],
            ),
        ),
        Stmt::Var(vec![("o".to_string(), Some(Expr::New(Box::new(ident("F")), vec![])))]),
        print_stmt(binary(BinaryOp::Minus, ident("o"), number("2"))),
        print_stmt(member(ident("o"), "marked")),
    ]);
    assert!(res.is_ok());
    assert_eq!(out, "3 \n1 \n");
}
