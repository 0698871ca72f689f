//! A tree-walking interpreter for Lox, a small dynamically typed language
//! with first-class functions, closures and classes with single
//! inheritance.
//!
//! A program goes from text to tokens (`scanner`), from tokens to a syntax
//! tree (`parser`, whose grammar is `grammar`), through scope resolution
//! (`resolver`) and into the `interpreter`, which runs it step by step. What
//! the interpreter does is defined by the machine in `machine`; `validity`
//! holds what is true of every state of that machine, and `laws` what
//! follows for calls, variables, properties and scopes.
//!
//! The library does no input or output and never touches a floating-point
//! number. Its host prints, reads the clock and does the arithmetic that
//! rounds, when a step of the interpreter asks for it.

pub mod ast;
pub mod class;
pub mod environment;
pub mod error;
pub mod function;
pub mod grammar;
pub mod interpreter;
pub mod laws;
pub mod locals;
pub mod lox;
pub mod lox_type;
pub mod machine;
pub mod number;
pub mod parser;
pub mod resolver;
pub mod scanner;
pub mod table;
pub mod text;
pub mod token;
pub mod token_type;
pub mod validity;
