//! A small embeddable runtime for a dynamically typed scripting language with
//! prototype-based objects, first-class functions and an ECMAScript-3-style
//! `this` convention.
//!
//! A program (an abstract syntax tree, [`ast::Program`]) is lowered by the
//! compiler ([`codegen`]) to a flat stack bytecode ([`code::Code`]) which the
//! virtual machine ([`vm::VM`]) executes against the built-in prototype graph
//! ([`context::Context`]). Objects live in an arena ([`heap::Heap`]); an
//! object reference is an index into it. Numbers are IEEE-754 double-precision
//! values carried as their 64 raw bits ([`numbits`]).

pub mod ast;
pub mod code;
pub mod codegen;
pub mod context;
pub mod function;
pub mod heap;
pub mod number;
pub mod numbits;
pub mod objects;
pub mod string;
pub mod value;
pub mod vm;
