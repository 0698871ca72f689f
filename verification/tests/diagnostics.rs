//! Reports, flags and the texts they are made of.

use rlox::error::{arity_error, undefined_property_error, undefined_variable_error};
use rlox::error::{InterpreterError, RuntimeError};
use rlox::lox::{
    error, had_error, had_runtime_error, parse_error, runtime_error, set_had_error,
    set_had_runtime_error, Diagnostics,
};
use rlox::lox_type::LoxType;
use rlox::text::{characters, decimal, join3};
use rlox::token::Token;
use rlox::token_type::TokenType;

fn token(token_type: TokenType, lexeme: &str, line: usize) -> Token {
    Token::new(token_type, lexeme.to_string(), None, line)
}

#[test]
fn new_collector_is_clean() {
    let mut diagnostics = Diagnostics::new();
    assert!(!had_error(&diagnostics));
    assert!(!had_runtime_error(&diagnostics));
    assert_eq!(diagnostics.exit_code(), 0);
    assert_eq!(diagnostics.take_lines(), Vec::<String>::new());
}

#[test]
fn error_reports_the_line() {
    let mut diagnostics = Diagnostics::new();
    error(&mut diagnostics, 3, "Unterminated string.");
    assert!(had_error(&diagnostics));
    assert!(!had_runtime_error(&diagnostics));
    assert_eq!(diagnostics.take_lines(), vec!["[line 3] Error: Unterminated string."]);
}

#[test]
fn parse_error_reports_the_token() {
    let mut diagnostics = Diagnostics::new();
    parse_error(&mut diagnostics, &token(TokenType::Identifier, "name", 12), "Expect ';'.");
    parse_error(&mut diagnostics, &token(TokenType::Eof, "", 120), "Expect expression.");
    parse_error(&mut diagnostics, &token(TokenType::String, "\"s\"", 0), "Odd.");
    assert!(had_error(&diagnostics));
    assert_eq!(
        diagnostics.take_lines(),
        vec![
            "[line 12] Error at 'name': Expect ';'.",
            "[line 120] Error at end: Expect expression.",
            "[line 0] Error at '\"s\"': Odd.",
        ]
    );
}

#[test]
fn runtime_error_reports_message_and_line() {
    let mut diagnostics = Diagnostics::new();
    runtime_error(
        &mut diagnostics,
        InterpreterError::runtime_error(Some(token(TokenType::Minus, "-", 7)), "Operand must be a number."),
    );
    runtime_error(&mut diagnostics, InterpreterError::runtime_error(None, "could not retrieve time."));
    assert!(!had_error(&diagnostics));
    assert!(had_runtime_error(&diagnostics));
    assert_eq!(
        diagnostics.take_lines(),
        vec!["Operand must be a number.\n[line 7]", "could not retrieve time."]
    );
}

#[test]
fn a_return_is_no_runtime_error() {
    let mut diagnostics = Diagnostics::new();
    runtime_error(&mut diagnostics, InterpreterError::Return(LoxType::Nil));
    assert!(!had_runtime_error(&diagnostics));
    assert_eq!(diagnostics.exit_code(), 0);
    assert_eq!(diagnostics.take_lines(), Vec::<String>::new());
}

#[test]
fn flags_can_be_set_and_cleared() {
    let mut diagnostics = Diagnostics::new();
    set_had_error(&mut diagnostics, true);
    assert!(had_error(&diagnostics));
    assert!(!had_runtime_error(&diagnostics));
    set_had_runtime_error(&mut diagnostics, true);
    assert!(had_runtime_error(&diagnostics));
    set_had_error(&mut diagnostics, false);
    assert!(!had_error(&diagnostics));
    assert!(had_runtime_error(&diagnostics));
    set_had_runtime_error(&mut diagnostics, false);
    assert!(!had_runtime_error(&diagnostics));
}

#[test]
fn exit_code_prefers_the_static_error() {
    let mut diagnostics = Diagnostics::new();
    assert_eq!(diagnostics.exit_code(), 0);
    set_had_runtime_error(&mut diagnostics, true);
    assert_eq!(diagnostics.exit_code(), 70);
    set_had_error(&mut diagnostics, true);
    assert_eq!(diagnostics.exit_code(), 65);
    set_had_runtime_error(&mut diagnostics, false);
    assert_eq!(diagnostics.exit_code(), 65);
}

#[test]
fn taking_the_lines_keeps_the_flags() {
    let mut diagnostics = Diagnostics::new();
    error(&mut diagnostics, 1, "first");
    error(&mut diagnostics, 2, "second");
    assert_eq!(diagnostics.take_lines().len(), 2);
    assert_eq!(diagnostics.take_lines().len(), 0);
    assert!(had_error(&diagnostics));
}

#[test]
fn runtime_error_holds_token_and_message() {
    let error = RuntimeError::new(Some(token(TokenType::Plus, "+", 2)), "message");
    assert_eq!(error.message, "message");
    assert_eq!(error.token.map(|token| (token.lexeme, token.line)), Some(("+".to_string(), 2)));
    let error = RuntimeError::new(None, "");
    assert_eq!(error.message, "");
    assert!(error.token.is_none());
    match InterpreterError::runtime_error(None, "wrapped") {
        InterpreterError::RuntimeError(error) => assert_eq!(error.message, "wrapped"),
        InterpreterError::Return(_) => panic!("a failure is no return"),
    }
}

fn message(error: InterpreterError) -> (String, Option<(String, usize)>) {
    match error {
        InterpreterError::RuntimeError(error) => {
            (error.message, error.token.map(|token| (token.lexeme, token.line)))
        }
        InterpreterError::Return(_) => panic!("a failure is no return"),
    }
}

#[test]
fn failures_name_what_they_are_about() {
    let name = token(TokenType::Identifier, "thing", 5);
    assert_eq!(
        message(undefined_variable_error(&name)),
        ("Undefined variable 'thing'.".to_string(), Some(("thing".to_string(), 5)))
    );
    assert_eq!(
        message(undefined_property_error(&name)),
        ("Undefined property 'thing'.".to_string(), Some(("thing".to_string(), 5)))
    );
    let paren = token(TokenType::RightParen, ")", 9);
    assert_eq!(
        message(arity_error(&paren, 2, 1)),
        ("Expected 2 arguments but got 1.".to_string(), Some((")".to_string(), 9)))
    );
    assert_eq!(message(arity_error(&paren, 0, 255)).0, "Expected 0 arguments but got 255.");
    assert_eq!(message(arity_error(&paren, 10, 100)).0, "Expected 10 arguments but got 100.");
}

#[test]
fn numbers_are_written_in_decimal() {
    assert_eq!(decimal(0), "0");
    assert_eq!(decimal(7), "7");
    assert_eq!(decimal(9), "9");
    assert_eq!(decimal(10), "10");
    assert_eq!(decimal(42), "42");
    assert_eq!(decimal(100), "100");
    assert_eq!(decimal(1234567890), "1234567890");
    assert_eq!(decimal(usize::MAX), usize::MAX.to_string());
    for n in 0..2000 {
        assert_eq!(decimal(n), n.to_string());
    }
}

#[test]
fn texts_are_joined_and_split() {
    assert_eq!(join3("a", "b", "c"), "abc");
    assert_eq!(join3("", "", ""), "");
    assert_eq!(join3("<fn ", "name", ">"), "<fn name>");
    assert_eq!(characters("abc"), vec!['a', 'b', 'c']);
    assert_eq!(characters(""), Vec::<char>::new());
    assert_eq!(characters("aé你"), vec!['a', 'é', '你']);
}
