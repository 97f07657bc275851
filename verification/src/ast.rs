//! The abstract syntax accepted by the compiler: script programs over a small
//! expression and statement language. An outside parser supplies values of
//! these types; the compiler consumes nothing else.

use vstd::prelude::*;

verus! {

/// The binary operators the language supports.
#[derive(Clone, Copy, PartialEq, Eq, Structural)]
pub enum BinaryOp {
    /// `+`: numeric addition or string concatenation, after `ToPrimitive`.
    Plus,
    /// `-`: numeric subtraction.
    Minus,
    /// `==`: loose equality.
    Equal,
}

/// An expression.
pub enum Expr {
    /// The `null` literal.
    Null,
    /// A boolean literal.
    Boolean(bool),
    /// A numeric literal, as its source text; the compiler parses it and
    /// interns the number (NaN when the text does not parse).
    Number(String),
    /// A string literal, already unquoted.
    Str(String),
    /// An identifier.
    Ident(String),
    /// The `this` expression.
    This,
    Binary(BinaryOp, Box<Expr>, Box<Expr>),
    /// A plain `=` assignment: target, then value.
    Assign(Box<Expr>, Box<Expr>),
    /// Member access: object, then property. A dot access carries the
    /// property name as an `Ident`; a computed access carries any expression.
    Member(Box<Expr>, Box<Expr>),
    /// A call: callee, then arguments.
    Call(Box<Expr>, Vec<Expr>),
    /// A construction: callee, then arguments.
    New(Box<Expr>, Vec<Expr>),
    /// A function expression: optional name, parameter names, body. Only
    /// plain identifier parameters exist.
    Func(Option<String>, Vec<String>, Vec<Stmt>),
    /// An array literal; holes are dropped before compilation.
    Array(Vec<Expr>),
}

/// A statement or declaration.
pub enum Stmt {
    Empty,
    Expr(Expr),
    Return(Option<Expr>),
    /// `if`: test, consequent, optional alternate.
    If(Expr, Box<Stmt>, Option<Box<Stmt>>),
    Block(Vec<Stmt>),
    /// `var`, with one entry per declarator: name and optional initialiser.
    Var(Vec<(String, Option<Expr>)>),
    /// `function f(params) { body }`.
    FuncDecl(String, Vec<String>, Vec<Stmt>),
}

/// A script program: a sequence of statements and declarations.
pub struct Program {
    pub parts: Vec<Stmt>,
}

} // verus!
