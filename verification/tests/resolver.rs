//! Scope resolution: the distances it records and the errors it reports.

use rlox::ast::Ast;
use rlox::interpreter::Interpreter;
use rlox::lox::Diagnostics;
use rlox::parser::Parser;
use rlox::resolver::Resolver;
use rlox::scanner::Scanner;
use rlox::token::Token;
use rlox::token_type::TokenType;

/// Resolves the program and returns the interpreter with the distances and
/// the reports.
fn resolve(source: &str) -> (Interpreter, Vec<String>) {
    let mut diagnostics = Diagnostics::new();
    let tokens = Scanner::new(source).scan_tokens(&mut diagnostics);
    let mut ast = Ast::new();
    let statements = Parser::new(tokens).parse(&mut ast, &mut diagnostics);
    assert_eq!(diagnostics.take_lines(), Vec::<String>::new());
    let mut interpreter = Interpreter::new();
    Resolver::new().resolve(&mut interpreter, &mut diagnostics, &ast, &statements);
    (interpreter, diagnostics.take_lines())
}

fn distance(interpreter: &Interpreter, name: &str, line: usize) -> Option<usize> {
    interpreter.distance(&Token::new(TokenType::Identifier, name.to_string(), None, line))
}

#[test]
fn globals_get_no_distance() {
    let (interpreter, reports) = resolve("var a;\nprint a;\na = nil;\nfun f() { }\nf;");
    assert_eq!(reports, Vec::<String>::new());
    assert_eq!(distance(&interpreter, "a", 2), None);
    assert_eq!(distance(&interpreter, "a", 3), None);
    assert_eq!(distance(&interpreter, "f", 5), None);
}

#[test]
fn a_reference_is_as_far_as_its_declaration() {
    let source = "{ var a;\n a;\n { a;\n { a;\n { a;\n } } } }";
    let (interpreter, reports) = resolve(source);
    assert_eq!(reports, Vec::<String>::new());
    assert_eq!(distance(&interpreter, "a", 2), Some(0));
    assert_eq!(distance(&interpreter, "a", 3), Some(1));
    assert_eq!(distance(&interpreter, "a", 4), Some(2));
    assert_eq!(distance(&interpreter, "a", 5), Some(3));
}

#[test]
fn the_nearest_declaration_decides() {
    let source = "{ var a;\n { var b;\n { var a;\n { a;\n b;\n } } } }";
    let (interpreter, _) = resolve(source);
    assert_eq!(distance(&interpreter, "a", 4), Some(1));
    assert_eq!(distance(&interpreter, "b", 5), Some(2));
}

#[test]
fn a_reference_before_a_later_declaration_looks_further_out() {
    let source = "{ var a;\n {\n a;\n var a;\n a;\n } }";
    let (interpreter, _) = resolve(source);
    assert_eq!(distance(&interpreter, "a", 3), Some(1));
    assert_eq!(distance(&interpreter, "a", 5), Some(0));
}

#[test]
fn assignments_are_resolved_like_reads() {
    let source = "{ var a;\n { a = nil;\n } }";
    let (interpreter, _) = resolve(source);
    assert_eq!(distance(&interpreter, "a", 2), Some(1));
}

#[test]
fn parameters_live_in_the_scope_of_the_body() {
    let source = "fun f(a) {\n a;\n {\n a;\n }\n }";
    let (interpreter, _) = resolve(source);
    assert_eq!(distance(&interpreter, "a", 2), Some(0));
    assert_eq!(distance(&interpreter, "a", 4), Some(1));
}

#[test]
fn a_local_function_can_call_itself() {
    let source = "{ fun f() {\n f;\n } }";
    let (interpreter, reports) = resolve(source);
    assert_eq!(reports, Vec::<String>::new());
    assert_eq!(distance(&interpreter, "f", 2), Some(1));
}

#[test]
fn this_and_super_have_scopes_of_their_own() {
    let source = "class A { m() { } }\nclass B < A {\n m() {\n this;\n super.m;\n {\n this;\n }\n }\n }";
    let (interpreter, reports) = resolve(source);
    assert_eq!(reports, Vec::<String>::new());
    let keyword = |text: &str, line: usize| {
        interpreter.distance(&Token::new(TokenType::This, text.to_string(), None, line))
    };
    assert_eq!(keyword("this", 4), Some(1));
    assert_eq!(keyword("super", 5), Some(2));
    assert_eq!(keyword("this", 7), Some(2));
}

#[test]
fn this_without_a_superclass_is_one_scope_out() {
    let source = "class A {\n m() {\n this;\n }\n }";
    let (interpreter, _) = resolve(source);
    assert_eq!(
        interpreter.distance(&Token::new(TokenType::This, "this".to_string(), None, 3)),
        Some(1)
    );
}

#[test]
fn the_scopes_are_left_as_they_were_found() {
    let mut diagnostics = Diagnostics::new();
    let mut ast = Ast::new();
    let mut interpreter = Interpreter::new();
    let mut resolver = Resolver::new();
    let first = Parser::new(Scanner::new("{ var a; fun f(b) { { var c; } } }").scan_tokens(&mut diagnostics))
        .parse(&mut ast, &mut diagnostics);
    resolver.resolve(&mut interpreter, &mut diagnostics, &ast, &first);
    let second = Parser::new(Scanner::new("a;\nreturn;").scan_tokens(&mut diagnostics))
        .parse(&mut ast, &mut diagnostics);
    resolver.resolve(&mut interpreter, &mut diagnostics, &ast, &second);
    assert_eq!(distance(&interpreter, "a", 1), None);
    assert_eq!(
        diagnostics.take_lines(),
        vec!["[line 2] Error at 'return': Can't return from top-level code."]
    );
}

#[test]
fn errors_do_not_end_the_pass() {
    let source = "{ var a; var a;\n { a;\n } }\nthis;";
    let (interpreter, reports) = resolve(source);
    assert_eq!(
        reports,
        vec![
            "[line 1] Error at 'a': Already a variable with this name in this scope.",
            "[line 4] Error at 'this': Can't use 'this' outside of a class.",
        ]
    );
    assert_eq!(distance(&interpreter, "a", 2), Some(1));
}

#[test]
fn return_is_allowed_inside_functions_and_methods() {
    let (_, reports) = resolve("fun f() { return nil; } class A { m() { return this; } init() { return; } }");
    assert_eq!(reports, Vec::<String>::new());
}

#[test]
fn return_in_a_function_inside_an_initializer_may_carry_a_value() {
    let (_, reports) = resolve("class A { init() { fun inner() { return this; } } }");
    assert_eq!(reports, Vec::<String>::new());
}

#[test]
fn a_global_may_be_declared_twice_and_read_in_its_initializer() {
    let (_, reports) = resolve("var a; var a; var b = b;");
    assert_eq!(reports, Vec::<String>::new());
}

#[test]
fn this_in_a_function_inside_a_method_is_allowed() {
    let (_, reports) = resolve("class A { m() { fun inner() { return this; } return inner; } }");
    assert_eq!(reports, Vec::<String>::new());
}
