//! Classes, instances and functions.

use rlox::ast::{Ast, Stmt};
use rlox::class::{LoxClass, LoxInstance};
use rlox::environment::Environment;
use rlox::error::InterpreterError;
use rlox::function::{Function, NativeFunction};
use rlox::lox_type::LoxType;
use rlox::table::Table;
use rlox::token::Token;
use rlox::token_type::TokenType;

fn identifier(name: &str) -> Token {
    Token::new(TokenType::Identifier, name.to_string(), None, 1)
}

fn method(declaration: usize) -> Function {
    Function::User { declaration, closure: 0, is_initializer: false }
}

fn class(name: &str, superclass: Option<usize>, methods: &[(&str, usize)]) -> LoxClass {
    let mut table = Table::new();
    for (name, declaration) in methods {
        table.insert(name.to_string(), method(*declaration));
    }
    LoxClass::new(name, superclass, table)
}

fn message(error: InterpreterError) -> String {
    match error {
        InterpreterError::RuntimeError(error) => error.message,
        InterpreterError::Return(_) => panic!("a return is no failure"),
    }
}

#[test]
fn class_knows_its_name_and_superclass() {
    let base = class("Base", None, &[]);
    let derived = class("Derived", Some(0), &[]);
    assert_eq!(base.name(), "Base");
    assert_eq!(base.superclass(), None);
    assert_eq!(derived.name(), "Derived");
    assert_eq!(derived.superclass(), Some(0));
}

#[test]
fn find_method_looks_in_the_class_first() {
    let classes = vec![class("A", None, &[("m", 1), ("n", 2)])];
    assert_eq!(LoxClass::find_method(&classes, 0, "m"), Some(method(1)));
    assert_eq!(LoxClass::find_method(&classes, 0, "n"), Some(method(2)));
    assert_eq!(LoxClass::find_method(&classes, 0, "o"), None);
}

#[test]
fn find_method_goes_on_to_the_superclasses() {
    let classes = vec![
        class("A", None, &[("a", 1), ("shared", 2)]),
        class("B", Some(0), &[("b", 3), ("shared", 4)]),
        class("C", Some(1), &[("c", 5)]),
        class("Other", None, &[("other", 6)]),
    ];
    assert_eq!(LoxClass::find_method(&classes, 2, "c"), Some(method(5)));
    assert_eq!(LoxClass::find_method(&classes, 2, "b"), Some(method(3)));
    assert_eq!(LoxClass::find_method(&classes, 2, "a"), Some(method(1)));
    assert_eq!(LoxClass::find_method(&classes, 2, "shared"), Some(method(4)));
    assert_eq!(LoxClass::find_method(&classes, 1, "shared"), Some(method(4)));
    assert_eq!(LoxClass::find_method(&classes, 0, "shared"), Some(method(2)));
    assert_eq!(LoxClass::find_method(&classes, 0, "b"), None);
    assert_eq!(LoxClass::find_method(&classes, 2, "other"), None);
    assert_eq!(LoxClass::find_method(&classes, 3, "a"), None);
}

#[test]
fn new_instance_has_no_fields() {
    let classes = vec![class("A", None, &[])];
    let mut environment = Environment::new();
    let instance = LoxInstance::new(0);
    assert_eq!(instance.class(), 0);
    let found = instance.get(&identifier("x"), &LoxType::Instance(0), &classes, &mut environment);
    assert_eq!(message(found.unwrap_err()), "Undefined property 'x'.");
    assert_eq!(environment.len(), 1);
}

#[test]
fn fields_are_set_and_read() {
    let classes = vec![class("A", None, &[])];
    let mut environment = Environment::new();
    let mut instance = LoxInstance::new(0);
    instance.set(&identifier("x"), LoxType::Number(5.0f64.to_bits()));
    instance.set(&identifier("y"), LoxType::Nil);
    instance.set(&identifier("x"), LoxType::Boolean(true));
    let object = LoxType::Instance(0);
    assert_eq!(
        instance.get(&identifier("x"), &object, &classes, &mut environment).ok(),
        Some(LoxType::Boolean(true))
    );
    assert_eq!(
        instance.get(&identifier("y"), &object, &classes, &mut environment).ok(),
        Some(LoxType::Nil)
    );
    assert_eq!(environment.len(), 1);
}

#[test]
fn a_method_is_bound_when_it_is_read() {
    let classes = vec![class("A", None, &[("m", 7)])];
    let mut environment = Environment::new();
    let instance = LoxInstance::new(0);
    let object = LoxType::Instance(4);
    let found = instance.get(&identifier("m"), &object, &classes, &mut environment).ok();
    assert_eq!(
        found,
        Some(LoxType::Callable(Function::User { declaration: 7, closure: 1, is_initializer: false }))
    );
    assert_eq!(environment.len(), 2);
    assert_eq!(environment.enclosing(1), Some(0));
    assert_eq!(environment.get_at(1, 0, "this"), Some(LoxType::Instance(4)));
    let again = instance.get(&identifier("m"), &object, &classes, &mut environment).ok();
    assert_eq!(
        again,
        Some(LoxType::Callable(Function::User { declaration: 7, closure: 2, is_initializer: false }))
    );
}

#[test]
fn a_field_hides_a_method() {
    let classes = vec![class("A", None, &[("m", 7)])];
    let mut environment = Environment::new();
    let mut instance = LoxInstance::new(0);
    instance.set(&identifier("m"), LoxType::String("field".to_string()));
    let found = instance.get(&identifier("m"), &LoxType::Instance(0), &classes, &mut environment);
    assert_eq!(found.ok(), Some(LoxType::String("field".to_string())));
    assert_eq!(environment.len(), 1);
    assert_eq!(LoxClass::find_method(&classes, 0, "m"), Some(method(7)));
}

#[test]
fn an_inherited_method_is_found_through_the_instance() {
    let classes = vec![class("A", None, &[("m", 7)]), class("B", Some(0), &[])];
    let mut environment = Environment::new();
    let instance = LoxInstance::new(1);
    let found = instance.get(&identifier("m"), &LoxType::Instance(0), &classes, &mut environment);
    assert_eq!(
        found.ok(),
        Some(LoxType::Callable(Function::User { declaration: 7, closure: 1, is_initializer: false }))
    );
}

#[test]
fn undefined_property_is_reported_at_its_name() {
    let classes = vec![class("A", None, &[])];
    let mut environment = Environment::new();
    let instance = LoxInstance::new(0);
    let name = Token::new(TokenType::Identifier, "missing".to_string(), None, 12);
    match instance.get(&name, &LoxType::Instance(0), &classes, &mut environment) {
        Err(InterpreterError::RuntimeError(error)) => {
            assert_eq!(error.message, "Undefined property 'missing'.");
            let token = error.token.expect("the failure has a token");
            assert_eq!(token.lexeme, "missing");
            assert_eq!(token.line, 12);
        }
        _ => panic!("the read fails"),
    }
}

#[test]
fn bind_makes_a_new_function_and_leaves_the_old_one() {
    let mut environment = Environment::new();
    let captured = environment.with_enclosing(0);
    let function = Function::User { declaration: 3, closure: captured, is_initializer: true };
    let bound = function.bind(&mut environment, LoxType::Instance(9));
    assert_eq!(bound, Function::User { declaration: 3, closure: 2, is_initializer: true });
    assert_eq!(function, Function::User { declaration: 3, closure: captured, is_initializer: true });
    assert_eq!(environment.enclosing(2), Some(captured));
    assert_eq!(environment.get_at(2, 0, "this"), Some(LoxType::Instance(9)));
    assert_eq!(environment.get_at(captured, 0, "this"), None);
    let second = function.bind(&mut environment, LoxType::Instance(10));
    assert_eq!(second, Function::User { declaration: 3, closure: 3, is_initializer: true });
    assert_eq!(environment.get_at(2, 0, "this"), Some(LoxType::Instance(9)));
    assert_eq!(environment.get_at(3, 0, "this"), Some(LoxType::Instance(10)));
}

#[test]
fn arity_is_the_number_of_parameters() {
    let mut ast = Ast::new();
    let none = ast
        .add_stmt(Stmt::Function { name: identifier("none"), params: vec![], body: vec![] })
        .unwrap();
    let two = ast
        .add_stmt(Stmt::Function {
            name: identifier("two"),
            params: vec![identifier("a"), identifier("b")],
            body: vec![],
        })
        .unwrap();
    let block = ast.add_stmt(Stmt::Block(vec![])).unwrap();
    let user = |declaration| Function::User { declaration, closure: 0, is_initializer: false };
    assert_eq!(user(none).arity(&ast), 0);
    assert_eq!(user(two).arity(&ast), 2);
    assert_eq!(user(block).arity(&ast), 0);
    assert_eq!(user(99).arity(&ast), 0);
    assert_eq!(Function::Native { arity: 0, body: NativeFunction::Clock }.arity(&ast), 0);
    assert_eq!(Function::Native { arity: 3, body: NativeFunction::Clock }.arity(&ast), 3);
}
