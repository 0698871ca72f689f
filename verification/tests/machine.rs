//! The interpreter, step by step.

use rlox::ast::{Ast, Expr, Stmt};
use rlox::error::InterpreterError;
use rlox::function::{Function, NativeFunction};
use rlox::interpreter::{Action, Interpreter, Printable};
use rlox::lox_type::LoxType;
use rlox::machine::{ArithmeticOperator, Event};
use rlox::token::Token;
use rlox::token_type::TokenType;

fn token(token_type: TokenType, lexeme: &str) -> Token {
    Token::new(token_type, lexeme.to_string(), None, 1)
}

fn number(value: f64) -> Expr {
    Expr::Literal(LoxType::Number(value.to_bits()))
}

/// Steps until the interpreter wants something of the host.
fn until_action(interpreter: &mut Interpreter, ast: &Ast, event: Event) -> Action {
    let mut action = interpreter.step(ast, event);
    let mut steps = 0;
    while let Action::Continue = action {
        steps += 1;
        assert!(steps < 10_000);
        action = interpreter.step(ast, Event::Tick);
    }
    action
}

#[test]
fn a_new_interpreter_has_nothing_to_do() {
    let ast = Ast::new();
    let mut interpreter = Interpreter::new();
    assert!(interpreter.is_idle());
    assert!(matches!(interpreter.step(&ast, Event::Tick), Action::Done));
    assert!(matches!(interpreter.step(&ast, Event::Number(0)), Action::Done));
    assert!(interpreter.is_idle());
}

#[test]
fn an_empty_program_is_done_after_its_frame() {
    let ast = Ast::new();
    let mut interpreter = Interpreter::new();
    interpreter.interpret(Vec::new());
    assert!(!interpreter.is_idle());
    assert!(matches!(until_action(&mut interpreter, &ast, Event::Tick), Action::Done));
    assert!(interpreter.is_idle());
}

#[test]
fn printing_hands_the_value_to_the_host() {
    let mut ast = Ast::new();
    let text = ast.add_expr(Expr::Literal(LoxType::String("hi".to_string()))).unwrap();
    let value = ast.add_expr(number(2.5)).unwrap();
    let first = ast.add_stmt(Stmt::Print(text)).unwrap();
    let second = ast.add_stmt(Stmt::Print(value)).unwrap();
    let mut interpreter = Interpreter::new();
    interpreter.interpret(vec![first, second]);
    match until_action(&mut interpreter, &ast, Event::Tick) {
        Action::Print(Printable::Text(text)) => assert_eq!(text, "hi"),
        other => panic!("{:?}", other),
    }
    match until_action(&mut interpreter, &ast, Event::Tick) {
        Action::Print(Printable::Number(bits)) => assert_eq!(bits, 2.5f64.to_bits()),
        other => panic!("{:?}", other),
    }
    assert!(matches!(until_action(&mut interpreter, &ast, Event::Tick), Action::Done));
}

/// A program that prints `left operator right`.
fn binary_program(operator: Token) -> (Ast, Vec<usize>) {
    let mut ast = Ast::new();
    let left = ast.add_expr(number(6.0)).unwrap();
    let right = ast.add_expr(number(3.0)).unwrap();
    let binary = ast.add_expr(Expr::Binary { left, operator, right }).unwrap();
    let print = ast.add_stmt(Stmt::Print(binary)).unwrap();
    (ast, vec![print])
}

#[test]
fn arithmetic_is_asked_of_the_host() {
    let cases = [
        (TokenType::Plus, "+", ArithmeticOperator::Add),
        (TokenType::Minus, "-", ArithmeticOperator::Subtract),
        (TokenType::Star, "*", ArithmeticOperator::Multiply),
        (TokenType::Slash, "/", ArithmeticOperator::Divide),
    ];
    for (token_type, lexeme, expected) in cases {
        let (ast, program) = binary_program(token(token_type, lexeme));
        let mut interpreter = Interpreter::new();
        interpreter.interpret(program);
        match until_action(&mut interpreter, &ast, Event::Tick) {
            Action::Arithmetic { operator, left, right } => {
                assert_eq!(operator, expected);
                assert_eq!(left, 6.0f64.to_bits());
                assert_eq!(right, 3.0f64.to_bits());
            }
            other => panic!("{:?}", other),
        }
        match until_action(&mut interpreter, &ast, Event::Number(42.0f64.to_bits())) {
            Action::Print(Printable::Number(bits)) => assert_eq!(bits, 42.0f64.to_bits()),
            other => panic!("{:?}", other),
        }
    }
}

#[test]
fn a_request_is_repeated_until_it_is_answered() {
    let (ast, program) = binary_program(token(TokenType::Plus, "+"));
    let mut interpreter = Interpreter::new();
    interpreter.interpret(program);
    assert!(matches!(until_action(&mut interpreter, &ast, Event::Tick), Action::Arithmetic { .. }));
    for event in [Event::Tick, Event::Unavailable, Event::Tick] {
        match interpreter.step(&ast, event) {
            Action::Arithmetic { operator, left, right } => {
                assert_eq!(operator, ArithmeticOperator::Add);
                assert_eq!((left, right), (6.0f64.to_bits(), 3.0f64.to_bits()));
            }
            other => panic!("{:?}", other),
        }
    }
    assert!(matches!(interpreter.step(&ast, Event::Number(9.0f64.to_bits())), Action::Continue));
    match until_action(&mut interpreter, &ast, Event::Tick) {
        Action::Print(Printable::Number(bits)) => assert_eq!(bits, 9.0f64.to_bits()),
        other => panic!("{:?}", other),
    }
}

#[test]
fn comparisons_need_no_host() {
    let (ast, program) = binary_program(token(TokenType::Greater, ">"));
    let mut interpreter = Interpreter::new();
    interpreter.interpret(program);
    match until_action(&mut interpreter, &ast, Event::Tick) {
        Action::Print(Printable::Text(text)) => assert_eq!(text, "true"),
        other => panic!("{:?}", other),
    }
}

/// A program that prints `clock()`.
fn clock_program() -> (Ast, Vec<usize>) {
    let mut ast = Ast::new();
    let callee = ast.add_expr(Expr::Variable(token(TokenType::Identifier, "clock"))).unwrap();
    let call = ast
        .add_expr(Expr::Call { callee, paren: token(TokenType::RightParen, ")"), arguments: vec![] })
        .unwrap();
    let print = ast.add_stmt(Stmt::Print(call)).unwrap();
    (ast, vec![print])
}

#[test]
fn the_clock_is_read_by_the_host() {
    let (ast, program) = clock_program();
    let mut interpreter = Interpreter::new();
    interpreter.interpret(program);
    assert!(matches!(until_action(&mut interpreter, &ast, Event::Tick), Action::Clock));
    assert!(matches!(interpreter.step(&ast, Event::Tick), Action::Clock));
    match until_action(&mut interpreter, &ast, Event::Number(1.5e12f64.to_bits())) {
        Action::Print(Printable::Number(bits)) => assert_eq!(bits, 1.5e12f64.to_bits()),
        other => panic!("{:?}", other),
    }
}

#[test]
fn a_clock_that_cannot_be_read_fails_the_program() {
    let (ast, program) = clock_program();
    let mut interpreter = Interpreter::new();
    interpreter.interpret(program);
    assert!(matches!(until_action(&mut interpreter, &ast, Event::Tick), Action::Clock));
    match until_action(&mut interpreter, &ast, Event::Unavailable) {
        Action::Halt(InterpreterError::RuntimeError(error)) => {
            assert_eq!(error.message, "could not retrieve time.");
            assert!(error.token.is_none());
        }
        other => panic!("{:?}", other),
    }
    assert!(interpreter.is_idle());
    assert!(matches!(interpreter.step(&ast, Event::Tick), Action::Done));
}

#[test]
fn a_return_outside_every_call_stops_the_run() {
    let mut ast = Ast::new();
    let value = ast.add_expr(number(1.0)).unwrap();
    let keyword = token(TokenType::Return, "return");
    let back = ast.add_stmt(Stmt::Return { keyword, value }).unwrap();
    let print = ast.add_stmt(Stmt::Print(value)).unwrap();
    let block = ast.add_stmt(Stmt::Block(vec![back, print])).unwrap();
    let mut interpreter = Interpreter::new();
    interpreter.interpret(vec![block, print]);
    match until_action(&mut interpreter, &ast, Event::Tick) {
        Action::Halt(InterpreterError::Return(value)) => {
            assert_eq!(value, LoxType::Number(1.0f64.to_bits()))
        }
        other => panic!("{:?}", other),
    }
    assert!(interpreter.is_idle());
}

#[test]
fn a_failure_brings_the_global_scope_back() {
    let mut ast = Ast::new();
    let missing = ast.add_expr(Expr::Variable(token(TokenType::Identifier, "missing"))).unwrap();
    let one = ast.add_expr(number(1.0)).unwrap();
    let name = token(TokenType::Identifier, "a");
    let declare = ast.add_stmt(Stmt::Var { name: name.clone(), initializer: one }).unwrap();
    let fail = ast.add_stmt(Stmt::Print(missing)).unwrap();
    let inner = ast.add_stmt(Stmt::Block(vec![fail])).unwrap();
    let outer = ast.add_stmt(Stmt::Block(vec![inner])).unwrap();
    let read = ast.add_expr(Expr::Variable(name)).unwrap();
    let show = ast.add_stmt(Stmt::Print(read)).unwrap();
    let mut interpreter = Interpreter::new();
    interpreter.interpret(vec![declare, outer]);
    match until_action(&mut interpreter, &ast, Event::Tick) {
        Action::Halt(InterpreterError::RuntimeError(error)) => {
            assert_eq!(error.message, "Undefined variable 'missing'.")
        }
        other => panic!("{:?}", other),
    }
    interpreter.interpret(vec![show]);
    match until_action(&mut interpreter, &ast, Event::Tick) {
        Action::Print(Printable::Number(bits)) => assert_eq!(bits, 1.0f64.to_bits()),
        other => panic!("{:?}", other),
    }
}

#[test]
fn loading_a_program_drops_what_was_left_to_do() {
    let mut ast = Ast::new();
    let one = ast.add_expr(number(1.0)).unwrap();
    let two = ast.add_expr(number(2.0)).unwrap();
    let first = ast.add_stmt(Stmt::Print(one)).unwrap();
    let second = ast.add_stmt(Stmt::Print(two)).unwrap();
    let mut interpreter = Interpreter::new();
    interpreter.interpret(vec![first, first, first]);
    assert!(matches!(until_action(&mut interpreter, &ast, Event::Tick), Action::Print(_)));
    interpreter.interpret(vec![second]);
    match until_action(&mut interpreter, &ast, Event::Tick) {
        Action::Print(Printable::Number(bits)) => assert_eq!(bits, 2.0f64.to_bits()),
        other => panic!("{:?}", other),
    }
    assert!(matches!(until_action(&mut interpreter, &ast, Event::Tick), Action::Done));
}

#[test]
fn statements_that_name_no_node_are_passed_over() {
    let mut ast = Ast::new();
    let one = ast.add_expr(number(1.0)).unwrap();
    let print = ast.add_stmt(Stmt::Print(one)).unwrap();
    let mut interpreter = Interpreter::new();
    interpreter.interpret(vec![99, print, 1000]);
    assert!(matches!(until_action(&mut interpreter, &ast, Event::Tick), Action::Print(_)));
    assert!(matches!(until_action(&mut interpreter, &ast, Event::Tick), Action::Done));
}

#[test]
fn recorded_distances_are_kept() {
    let mut interpreter = Interpreter::new();
    let name = token(TokenType::Identifier, "a");
    assert_eq!(interpreter.distance(&name), None);
    interpreter.resolve(&name, 3);
    assert_eq!(interpreter.distance(&name), Some(3));
    interpreter.resolve(&name, 1);
    assert_eq!(interpreter.distance(&name), Some(1));
    assert_eq!(interpreter.distance(&Token::new(TokenType::Identifier, "a".to_string(), None, 2)), None);
}

#[test]
fn a_block_runs_in_the_scope_it_is_given_and_gives_it_back() {
    let mut ast = Ast::new();
    let one = ast.add_expr(number(1.0)).unwrap();
    let name = token(TokenType::Identifier, "a");
    let declare = ast.add_stmt(Stmt::Var { name: name.clone(), initializer: one }).unwrap();
    let block = ast.add_stmt(Stmt::Block(vec![declare])).unwrap();
    let read = ast.add_expr(Expr::Variable(name)).unwrap();
    let show = ast.add_stmt(Stmt::Print(read)).unwrap();
    let mut interpreter = Interpreter::new();
    interpreter.interpret(vec![show]);
    // Run the statements of the block in the global scope itself: the
    // variable that they declare is then a global one.
    assert!(matches!(interpreter.execute_block(block, 0), Action::Continue));
    match until_action(&mut interpreter, &ast, Event::Tick) {
        Action::Print(Printable::Number(bits)) => assert_eq!(bits, 1.0f64.to_bits()),
        other => panic!("{:?}", other),
    }
}

/// A tree with `fun show(a) { print a; }` and the index of the declaration.
fn show_function() -> (Ast, usize) {
    let mut ast = Ast::new();
    let parameter = token(TokenType::Identifier, "a");
    let read = ast.add_expr(Expr::Variable(parameter.clone())).unwrap();
    let print = ast.add_stmt(Stmt::Print(read)).unwrap();
    let declaration = ast
        .add_stmt(Stmt::Function {
            name: token(TokenType::Identifier, "show"),
            params: vec![parameter],
            body: vec![print],
        })
        .unwrap();
    (ast, declaration)
}

#[test]
fn calling_a_function_runs_its_body_with_the_arguments() {
    let (ast, declaration) = show_function();
    let mut interpreter = Interpreter::new();
    // The parameter is a local of the body: the reference to it is resolved
    // to the scope of the call itself.
    interpreter.resolve(&token(TokenType::Identifier, "a"), 0);
    let function = Function::User { declaration, closure: 0, is_initializer: false };
    assert_eq!(function.arity(&ast), 1);
    let action = function.call(&mut interpreter, &ast, vec![LoxType::String("argument".to_string())]);
    assert!(matches!(action, Action::Continue));
    match until_action(&mut interpreter, &ast, Event::Tick) {
        Action::Print(Printable::Text(text)) => assert_eq!(text, "argument"),
        other => panic!("{:?}", other),
    }
    assert!(matches!(until_action(&mut interpreter, &ast, Event::Tick), Action::Done));
    assert!(interpreter.is_idle());
}

#[test]
fn calling_the_clock_asks_the_host() {
    let ast = Ast::new();
    let mut interpreter = Interpreter::new();
    let clock = Function::Native { arity: 0, body: NativeFunction::Clock };
    assert!(matches!(clock.call(&mut interpreter, &ast, Vec::new()), Action::Clock));
    assert!(matches!(interpreter.step(&ast, Event::Number(7)), Action::Continue));
    assert!(matches!(until_action(&mut interpreter, &ast, Event::Tick), Action::Done));
}

#[test]
fn running_stops_at_the_first_action_for_the_host() {
    let mut ast = Ast::new();
    let one = ast.add_expr(number(1.0)).unwrap();
    let grouped = ast.add_expr(Expr::Grouping(one)).unwrap();
    let print = ast.add_stmt(Stmt::Print(grouped)).unwrap();
    let mut interpreter = Interpreter::new();
    interpreter.interpret(vec![print, print]);
    assert!(matches!(interpreter.run(&ast, 0), Action::Continue));
    assert!(matches!(interpreter.run(&ast, 2), Action::Continue));
    assert!(matches!(interpreter.run(&ast, 1000), Action::Print(Printable::Number(_))));
    assert!(matches!(interpreter.run(&ast, 1000), Action::Print(Printable::Number(_))));
    assert!(matches!(interpreter.run(&ast, 1000), Action::Done));
    assert!(matches!(interpreter.run(&ast, 1000), Action::Done));
}

#[test]
fn a_failure_travels_down_one_frame_in_each_step() {
    let mut ast = Ast::new();
    let missing = ast.add_expr(Expr::Variable(token(TokenType::Identifier, "missing"))).unwrap();
    let fail = ast.add_stmt(Stmt::Print(missing)).unwrap();
    let mut interpreter = Interpreter::new();
    interpreter.interpret(vec![fail]);
    // The program frame hands on to the statement, the statement puts its
    // frame on the stack and starts on the expression, the expression fails.
    for _ in 0..3 {
        assert!(matches!(interpreter.step(&ast, Event::Tick), Action::Continue));
    }
    // The failure drops the frame of the statement, then that of the
    // program, and only then ends the run.
    assert!(matches!(interpreter.step(&ast, Event::Tick), Action::Continue));
    assert!(matches!(interpreter.step(&ast, Event::Tick), Action::Continue));
    assert!(!interpreter.is_idle());
    assert!(matches!(
        interpreter.step(&ast, Event::Tick),
        Action::Halt(InterpreterError::RuntimeError(_))
    ));
    assert!(interpreter.is_idle());
}

#[test]
fn a_block_entered_by_hand_gives_its_scope_back() {
    let mut ast = Ast::new();
    let missing = ast.add_expr(Expr::Variable(token(TokenType::Identifier, "missing"))).unwrap();
    let fail = ast.add_stmt(Stmt::Print(missing)).unwrap();
    let inner = ast.add_stmt(Stmt::Block(vec![fail])).unwrap();
    let outer = ast.add_stmt(Stmt::Block(vec![])).unwrap();
    let mut interpreter = Interpreter::new();
    interpreter.interpret(vec![outer]);
    // Go into the outer block: its scope, 1, is current.
    while interpreter.scope() == 0 {
        assert!(matches!(interpreter.step(&ast, Event::Tick), Action::Continue));
    }
    assert_eq!(interpreter.scope(), 1);
    // Run the failing block from there, in the global scope.
    assert!(matches!(interpreter.execute_block(inner, 0), Action::Continue));
    assert_eq!(interpreter.scope(), 0);
    let mut scopes = vec![0];
    loop {
        let action = interpreter.step(&ast, Event::Tick);
        if *scopes.last().unwrap() != interpreter.scope() {
            scopes.push(interpreter.scope());
        }
        match action {
            Action::Continue => {}
            Action::Halt(InterpreterError::RuntimeError(error)) => {
                assert_eq!(error.message, "Undefined variable 'missing'.");
                break;
            }
            other => panic!("{:?}", other),
        }
    }
    // The failure leaves the block that was entered by hand for the scope
    // it was entered from, 1, and then the outer block for the global scope.
    assert_eq!(scopes, vec![0, 1, 0]);
}

#[test]
fn a_failing_call_gives_the_scope_of_the_caller_back() {
    let mut ast = Ast::new();
    let missing = ast.add_expr(Expr::Variable(token(TokenType::Identifier, "missing"))).unwrap();
    let fail = ast.add_stmt(Stmt::Print(missing)).unwrap();
    let declaration = ast
        .add_stmt(Stmt::Function {
            name: token(TokenType::Identifier, "fails"),
            params: vec![],
            body: vec![fail],
        })
        .unwrap();
    let outer = ast.add_stmt(Stmt::Block(vec![])).unwrap();
    let mut interpreter = Interpreter::new();
    interpreter.interpret(vec![outer]);
    while interpreter.scope() == 0 {
        assert!(matches!(interpreter.step(&ast, Event::Tick), Action::Continue));
    }
    assert_eq!(interpreter.scope(), 1);
    let function = Function::User { declaration, closure: 0, is_initializer: false };
    assert!(matches!(function.call(&mut interpreter, &ast, Vec::new()), Action::Continue));
    // The body runs in a new scope inside the global one.
    assert_eq!(interpreter.scope(), 2);
    let mut scopes = vec![2];
    loop {
        let action = interpreter.step(&ast, Event::Tick);
        if *scopes.last().unwrap() != interpreter.scope() {
            scopes.push(interpreter.scope());
        }
        match action {
            Action::Continue => {}
            Action::Halt(InterpreterError::RuntimeError(error)) => {
                assert_eq!(error.message, "Undefined variable 'missing'.");
                break;
            }
            other => panic!("{:?}", other),
        }
    }
    // The failure leaves the call for the scope of the caller, 1, and then
    // the outer block for the global scope.
    assert_eq!(scopes, vec![2, 1, 0]);
}
