//! What stops the execution of a statement: a failure of the program, or a
//! `return` on its way to the call that it ends.

use vstd::prelude::*;
use vstd::string::StringExecFns;

use crate::lox_type::{LoxType, Value};
use crate::text::{decimal, decimal_digits, join3};
use crate::token::Token;

verus! {

/// A failure of the running program, with the token at which it happened
/// where there is one.
#[derive(Debug)]
pub struct RuntimeError {
    pub token: Option<Token>,
    pub message: String,
}

/// What a runtime error holds.
pub ghost struct RuntimeErrorView {
    pub token: Option<Token>,
    pub message: Seq<char>,
}

impl View for RuntimeError {
    type V = RuntimeErrorView;

    open spec fn view(&self) -> RuntimeErrorView {
        RuntimeErrorView { token: self.token, message: self.message@ }
    }
}

impl RuntimeError {
    /// The failure with the given token and message.
    pub fn new(token: Option<Token>, message: &str) -> (error: Self)
        ensures
            error@ == (RuntimeErrorView { token, message: message@ }),
    {
        RuntimeError { token, message: String::from_str(message) }
    }
}

/// What interrupts the execution of a statement.
#[derive(Debug)]
pub enum InterpreterError {
    /// The program failed.
    RuntimeError(RuntimeError),
    /// A `return` statement was executed, with this value.
    Return(LoxType),
}

/// What an interruption holds.
pub ghost enum InterpreterErrorView {
    RuntimeError(RuntimeErrorView),
    Return(Value),
}

impl View for InterpreterError {
    type V = InterpreterErrorView;

    open spec fn view(&self) -> InterpreterErrorView {
        match self {
            InterpreterError::RuntimeError(error) => InterpreterErrorView::RuntimeError(error@),
            InterpreterError::Return(value) => InterpreterErrorView::Return(value@),
        }
    }
}

/// The failure with the given token and message.
pub open spec fn failure(token: Option<Token>, message: Seq<char>) -> InterpreterErrorView {
    InterpreterErrorView::RuntimeError(RuntimeErrorView { token, message })
}

impl InterpreterError {
    /// The failure with the given token and message, as an interruption.
    pub fn runtime_error(token: Option<Token>, message: &str) -> (error: Self)
        ensures
            error@ == failure(token, message@),
    {
        InterpreterError::RuntimeError(RuntimeError::new(token, message))
    }
}

/// The message for a variable that nothing binds.
pub open spec fn undefined_variable(name: Seq<char>) -> Seq<char> {
    "Undefined variable '"@ + name + "'."@
}

/// The message for a property that an instance neither holds as a field nor
/// finds as a method.
pub open spec fn undefined_property(name: Seq<char>) -> Seq<char> {
    "Undefined property '"@ + name + "'."@
}

/// The message for a call with the wrong number of arguments.
pub open spec fn arity_mismatch(expected: nat, got: nat) -> Seq<char> {
    "Expected "@ + decimal_digits(expected) + " arguments but got "@ + decimal_digits(got) + "."@
}

/// The failure to find a variable, reported at `name`.
pub fn undefined_variable_error(name: &Token) -> (error: InterpreterError)
    ensures
        error@ == failure(Some(*name), undefined_variable(name.lexeme@)),
{
    let message = join3("Undefined variable '", name.lexeme.as_str(), "'.");
    InterpreterError::RuntimeError(RuntimeError { token: Some(name.clone()), message })
}

/// The failure to find a property, reported at `name`.
pub fn undefined_property_error(name: &Token) -> (error: InterpreterError)
    ensures
        error@ == failure(Some(*name), undefined_property(name.lexeme@)),
{
    let message = join3("Undefined property '", name.lexeme.as_str(), "'.");
    InterpreterError::RuntimeError(RuntimeError { token: Some(name.clone()), message })
}

/// The failure of a call that passes `got` arguments where `expected` are
/// asked for, reported at the closing parenthesis of the call.
pub fn arity_error(paren: &Token, expected: usize, got: usize) -> (error: InterpreterError)
    ensures
        error@ == failure(Some(*paren), arity_mismatch(expected as nat, got as nat)),
{
    let mut message = join3("Expected ", decimal(expected).as_str(), " arguments but got ");
    message.append(decimal(got).as_str());
    message.append(".");
    InterpreterError::RuntimeError(RuntimeError { token: Some(paren.clone()), message })
}

} // verus!
