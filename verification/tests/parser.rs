//! The parser: the shape of the tree that it builds.

use rlox::ast::{Ast, Expr, Stmt};
use rlox::lox::Diagnostics;
use rlox::lox_type::LoxType;
use rlox::parser::Parser;
use rlox::scanner::Scanner;
use rlox::token::Token;
use rlox::token_type::TokenType;

fn parse(source: &str) -> (Ast, Vec<usize>, Vec<String>) {
    let mut diagnostics = Diagnostics::new();
    let mut tokens = Scanner::new(source).scan_tokens(&mut diagnostics);
    for token in tokens.iter_mut() {
        if token.token_type == TokenType::Number {
            let value: f64 = token.lexeme.parse().unwrap();
            token.literal = Some(LoxType::Number(value.to_bits()));
        }
    }
    let mut ast = Ast::new();
    let statements = Parser::new(tokens).parse(&mut ast, &mut diagnostics);
    (ast, statements, diagnostics.take_lines())
}

/// The expression in prefix form, with parentheses around every node.
fn show(ast: &Ast, expr: usize) -> String {
    match &ast.exprs[expr] {
        Expr::Assign { name, value } => format!("(= {} {})", name.lexeme, show(ast, *value)),
        Expr::Binary { left, operator, right } => {
            format!("({} {} {})", operator.lexeme, show(ast, *left), show(ast, *right))
        }
        Expr::Call { callee, arguments, .. } => {
            let mut text = format!("(call {}", show(ast, *callee));
            for argument in arguments {
                text.push(' ');
                text.push_str(&show(ast, *argument));
            }
            text.push(')');
            text
        }
        Expr::Get { object, name } => format!("(. {} {})", show(ast, *object), name.lexeme),
        Expr::Grouping(inner) => format!("(group {})", show(ast, *inner)),
        Expr::Literal(LoxType::Number(bits)) => format!("{}", f64::from_bits(*bits)),
        Expr::Literal(LoxType::String(text)) => format!("{:?}", text),
        Expr::Literal(LoxType::Boolean(b)) => format!("{}", b),
        Expr::Literal(_) => "nil".to_string(),
        Expr::Logical { left, operator, right } => {
            format!("({} {} {})", operator.lexeme, show(ast, *left), show(ast, *right))
        }
        Expr::SetProperty { object, name, value } => {
            format!("(.= {} {} {})", show(ast, *object), name.lexeme, show(ast, *value))
        }
        Expr::Super { method, .. } => format!("(super {})", method.lexeme),
        Expr::This(_) => "this".to_string(),
        Expr::Unary { operator, right } => format!("({} {})", operator.lexeme, show(ast, *right)),
        Expr::Variable(name) => name.lexeme.clone(),
    }
}

/// The statement in prefix form.
fn show_stmt(ast: &Ast, stmt: usize) -> String {
    let list = |ids: &Vec<usize>| -> String {
        ids.iter().map(|id| format!(" {}", show_stmt(ast, *id))).collect::<String>()
    };
    match &ast.stmts[stmt] {
        Stmt::Block(body) => format!("(block{})", list(body)),
        Stmt::Class { name, superclass, methods } => match superclass {
            Some(parent) => format!("(class {} < {}{})", name.lexeme, show(ast, *parent), list(methods)),
            None => format!("(class {}{})", name.lexeme, list(methods)),
        },
        Stmt::Expression(expr) => format!("(; {})", show(ast, *expr)),
        Stmt::Function { name, params, body } => {
            let names: Vec<&str> = params.iter().map(|param| param.lexeme.as_str()).collect();
            format!("(fun {} ({}){})", name.lexeme, names.join(" "), list(body))
        }
        Stmt::If { condition, then_branch, opt_else_branch } => match opt_else_branch {
            Some(else_branch) => format!(
                "(if {} {} {})",
                show(ast, *condition),
                show_stmt(ast, *then_branch),
                show_stmt(ast, *else_branch)
            ),
            None => format!("(if {} {})", show(ast, *condition), show_stmt(ast, *then_branch)),
        },
        Stmt::Print(expr) => format!("(print {})", show(ast, *expr)),
        Stmt::Return { value, .. } => format!("(return {})", show(ast, *value)),
        Stmt::Var { name, initializer } => format!("(var {} {})", name.lexeme, show(ast, *initializer)),
        Stmt::While { condition, body } => {
            format!("(while {} {})", show(ast, *condition), show_stmt(ast, *body))
        }
    }
}

fn program(source: &str) -> Vec<String> {
    let (ast, statements, reports) = parse(source);
    assert_eq!(reports, Vec::<String>::new());
    statements.iter().map(|stmt| show_stmt(&ast, *stmt)).collect()
}

#[test]
fn binary_operators_group_by_precedence() {
    assert_eq!(program("1 + 2 * 3;"), vec!["(; (+ 1 (* 2 3)))"]);
    assert_eq!(program("1 * 2 + 3;"), vec!["(; (+ (* 1 2) 3))"]);
    assert_eq!(program("1 < 2 == 3 > 4;"), vec!["(; (== (< 1 2) (> 3 4)))"]);
    assert_eq!(program("1 + 2 < 3 - 4;"), vec!["(; (< (+ 1 2) (- 3 4)))"]);
    assert_eq!(program("a or b and c;"), vec!["(; (or a (and b c)))"]);
    assert_eq!(program("a and b or c;"), vec!["(; (or (and a b) c))"]);
    assert_eq!(program("a == b and c != d;"), vec!["(; (and (== a b) (!= c d)))"]);
    assert_eq!(program("-a * b;"), vec!["(; (* (- a) b))"]);
    assert_eq!(program("!a == b;"), vec!["(; (== (! a) b))"]);
}

#[test]
fn binary_operators_group_to_the_left() {
    assert_eq!(program("1 - 2 - 3;"), vec!["(; (- (- 1 2) 3))"]);
    assert_eq!(program("8 / 4 / 2;"), vec!["(; (/ (/ 8 4) 2))"]);
    assert_eq!(program("a or b or c;"), vec!["(; (or (or a b) c))"]);
    assert_eq!(program("1 < 2 <= 3;"), vec!["(; (<= (< 1 2) 3))"]);
}

#[test]
fn unary_operators_nest() {
    assert_eq!(program("!!a;"), vec!["(; (! (! a)))"]);
    assert_eq!(program("--1;"), vec!["(; (- (- 1)))"]);
    assert_eq!(program("-a.b();"), vec!["(; (- (call (. a b))))"]);
}

#[test]
fn grouping_overrides_precedence() {
    assert_eq!(program("(1 + 2) * 3;"), vec!["(; (* (group (+ 1 2)) 3))"]);
    assert_eq!(program("((a));"), vec!["(; (group (group a)))"]);
}

#[test]
fn assignment_groups_to_the_right() {
    assert_eq!(program("a = b = 1;"), vec!["(; (= a (= b 1)))"]);
    assert_eq!(program("a = b or c;"), vec!["(; (= a (or b c)))"]);
    assert_eq!(program("a.b = 1;"), vec!["(; (.= a b 1))"]);
    assert_eq!(program("a.b.c = d.e;"), vec!["(; (.= (. a b) c (. d e)))"]);
    assert_eq!(program("a().b = 1;"), vec!["(; (.= (call a) b 1))"]);
}

#[test]
fn only_variables_and_properties_can_be_assigned() {
    let (_, statements, reports) = parse("a + b = 1;");
    assert_eq!(reports, vec!["[line 1] Error at '=': Invalid assignment target."]);
    assert_eq!(statements, Vec::<usize>::new());
    let (_, _, reports) = parse("(a) = 1;");
    assert_eq!(reports, vec!["[line 1] Error at '=': Invalid assignment target."]);
    let (_, _, reports) = parse("a() = 1;");
    assert_eq!(reports, vec!["[line 1] Error at '=': Invalid assignment target."]);
}

#[test]
fn calls_and_properties_chain() {
    assert_eq!(program("f();"), vec!["(; (call f))"]);
    assert_eq!(program("f(1, a, \"s\");"), vec!["(; (call f 1 a \"s\"))"]);
    assert_eq!(program("f(1)(2);"), vec!["(; (call (call f 1) 2))"]);
    assert_eq!(program("a.b.c;"), vec!["(; (. (. a b) c))"]);
    assert_eq!(program("a.b(1).c;"), vec!["(; (. (call (. a b) 1) c))"]);
    assert_eq!(program("f(g(1), 2 + 3);"), vec!["(; (call f (call g 1) (+ 2 3)))"]);
}

#[test]
fn literals_and_names() {
    assert_eq!(program("true; false; nil; 1.5; \"s\"; x; this;"), vec![
        "(; true)",
        "(; false)",
        "(; nil)",
        "(; 1.5)",
        "(; \"s\")",
        "(; x)",
        "(; this)",
    ]);
    assert_eq!(program("super.m;"), vec!["(; (super m))"]);
    assert_eq!(program("super.m(1);"), vec!["(; (call (super m) 1))"]);
}

#[test]
fn a_number_without_a_value_is_no_expression() {
    let mut diagnostics = Diagnostics::new();
    let tokens = Scanner::new("print 1;").scan_tokens(&mut diagnostics);
    let mut ast = Ast::new();
    let statements = Parser::new(tokens).parse(&mut ast, &mut diagnostics);
    assert_eq!(statements, Vec::<usize>::new());
    assert_eq!(diagnostics.take_lines(), vec!["[line 1] Error at '1': Expect expression."]);
}

#[test]
fn statements_of_every_kind() {
    assert_eq!(program("print 1;"), vec!["(print 1)"]);
    assert_eq!(program("var a;"), vec!["(var a nil)"]);
    assert_eq!(program("var a = 1 + 2;"), vec!["(var a (+ 1 2))"]);
    assert_eq!(program("{ }"), vec!["(block)"]);
    assert_eq!(program("{ var a; { print a; } }"), vec!["(block (var a nil) (block (print a)))"]);
    assert_eq!(program("if (a) print 1;"), vec!["(if a (print 1))"]);
    assert_eq!(program("if (a) print 1; else print 2;"), vec!["(if a (print 1) (print 2))"]);
    assert_eq!(program("while (a) { b; }"), vec!["(while a (block (; b)))"]);
    assert_eq!(program("fun f() { return; }"), vec!["(fun f () (return nil))"]);
    assert_eq!(program("fun f(a, b) { return a + b; }"), vec!["(fun f (a b) (return (+ a b)))"]);
    assert_eq!(program("fun f() { } f();"), vec!["(fun f ())", "(; (call f))"]);
}

#[test]
fn an_else_belongs_to_the_nearest_if() {
    assert_eq!(
        program("if (a) if (b) print 1; else print 2;"),
        vec!["(if a (if b (print 1) (print 2)))"]
    );
}

#[test]
fn classes_hold_their_methods() {
    assert_eq!(program("class A { }"), vec!["(class A)"]);
    assert_eq!(
        program("class A { init(x) { this.x = x; } m() { return this.x; } }"),
        vec!["(class A (fun init (x) (; (.= this x x))) (fun m () (return (. this x))))"]
    );
    assert_eq!(program("class B < A { m() { super.m(); } }"), vec![
        "(class B < A (fun m () (; (call (super m)))))",
    ]);
}

#[test]
fn a_for_loop_is_a_while_loop_in_blocks() {
    assert_eq!(
        program("for (var i = 0; i < 3; i = i + 1) print i;"),
        vec!["(block (var i 0) (while (< i 3) (block (print i) (; (= i (+ i 1))))))"]
    );
    assert_eq!(program("for (;;) print 1;"), vec!["(while true (print 1))"]);
    assert_eq!(program("for (i = 0;;) print 1;"), vec!["(block (; (= i 0)) (while true (print 1)))"]);
    assert_eq!(program("for (; a;) print 1;"), vec!["(while a (print 1))"]);
    assert_eq!(program("for (;; i = i + 1) { }"), vec![
        "(while true (block (block) (; (= i (+ i 1)))))",
    ]);
}

#[test]
fn tokens_in_the_tree_keep_their_line() {
    let (ast, statements, _) = parse("var a = 1;\n\nprint missing;");
    match &ast.stmts[statements[0]] {
        Stmt::Var { name, .. } => {
            assert_eq!(name.lexeme, "a");
            assert_eq!(name.line, 1);
        }
        other => panic!("{:?}", other),
    }
    match &ast.stmts[statements[1]] {
        Stmt::Print(expr) => match &ast.exprs[*expr] {
            Expr::Variable(name) => {
                assert_eq!(name.lexeme, "missing");
                assert_eq!(name.line, 3);
            }
            other => panic!("{:?}", other),
        },
        other => panic!("{:?}", other),
    }
}

#[test]
fn a_statement_with_an_error_is_left_out() {
    let (ast, statements, reports) = parse("print 1;\nprint ;\nprint 2;");
    assert_eq!(reports, vec!["[line 2] Error at ';': Expect expression."]);
    let shown: Vec<String> = statements.iter().map(|stmt| show_stmt(&ast, *stmt)).collect();
    assert_eq!(shown, vec!["(print 1)", "(print 2)"]);
}

#[test]
fn tokens_without_an_end_get_one() {
    let mut diagnostics = Diagnostics::new();
    let mut ast = Ast::new();
    let tokens = vec![
        Token::new(TokenType::Print, "print".to_string(), None, 4),
        Token::new(TokenType::Nil, "nil".to_string(), None, 4),
    ];
    let statements = Parser::new(tokens).parse(&mut ast, &mut diagnostics);
    assert_eq!(statements, Vec::<usize>::new());
    assert_eq!(diagnostics.take_lines(), vec!["[line 4] Error at end: Expect ';' after value."]);
    let statements = Parser::new(Vec::new()).parse(&mut ast, &mut diagnostics);
    assert_eq!(statements, Vec::<usize>::new());
    assert_eq!(diagnostics.take_lines(), Vec::<String>::new());
}

#[test]
fn parsing_adds_to_the_tree_that_is_there() {
    let mut diagnostics = Diagnostics::new();
    let mut ast = Ast::new();
    let first = Parser::new(Scanner::new("var a;").scan_tokens(&mut diagnostics))
        .parse(&mut ast, &mut diagnostics);
    let (exprs, stmts) = (ast.exprs.len(), ast.stmts.len());
    let second = Parser::new(Scanner::new("print a;").scan_tokens(&mut diagnostics))
        .parse(&mut ast, &mut diagnostics);
    assert_eq!(first, vec![0]);
    assert_eq!(second, vec![stmts]);
    assert_eq!(ast.exprs.len(), exprs + 1);
    assert_eq!(show_stmt(&ast, first[0]), "(var a nil)");
    assert_eq!(show_stmt(&ast, second[0]), "(print a)");
}

#[test]
fn the_tree_refuses_nodes_that_point_ahead() {
    let mut ast = Ast::new();
    let name = Token::new(TokenType::Identifier, "a".to_string(), None, 1);
    let minus = Token::new(TokenType::Minus, "-".to_string(), None, 1);
    let comma = Token::new(TokenType::Comma, ",".to_string(), None, 1);
    assert_eq!(ast.add_expr(Expr::Grouping(0)), None);
    assert_eq!(ast.add_expr(Expr::Variable(name.clone())), Some(0));
    assert_eq!(ast.add_expr(Expr::Grouping(0)), Some(1));
    assert_eq!(ast.add_expr(Expr::Grouping(2)), None);
    assert_eq!(ast.add_expr(Expr::Unary { operator: minus.clone(), right: 1 }), Some(2));
    assert_eq!(ast.add_expr(Expr::Unary { operator: comma.clone(), right: 1 }), None);
    assert_eq!(ast.add_expr(Expr::Binary { left: 0, operator: minus.clone(), right: 2 }), Some(3));
    assert_eq!(ast.add_expr(Expr::Binary { left: 0, operator: comma, right: 2 }), None);
    assert_eq!(ast.add_expr(Expr::Binary { left: 0, operator: minus, right: 4 }), None);
    assert_eq!(
        ast.add_expr(Expr::Call { callee: 0, paren: name.clone(), arguments: vec![1, 2, 3] }),
        Some(4)
    );
    assert_eq!(
        ast.add_expr(Expr::Call { callee: 0, paren: name.clone(), arguments: vec![1, 5] }),
        None
    );
    assert_eq!(ast.add_expr(Expr::Literal(LoxType::Instance(0))), None);
    assert_eq!(ast.add_expr(Expr::Literal(LoxType::Nil)), Some(5));
    assert_eq!(ast.exprs.len(), 6);

    assert_eq!(ast.add_stmt(Stmt::Print(6)), None);
    assert_eq!(ast.add_stmt(Stmt::Print(5)), Some(0));
    assert_eq!(ast.add_stmt(Stmt::Block(vec![0, 1])), None);
    assert_eq!(ast.add_stmt(Stmt::Block(vec![0])), Some(1));
    assert_eq!(ast.add_stmt(Stmt::While { condition: 0, body: 2 }), None);
    assert_eq!(
        ast.add_stmt(Stmt::Class { name: name.clone(), superclass: None, methods: vec![0] }),
        None
    );
    assert_eq!(
        ast.add_stmt(Stmt::Function { name: name.clone(), params: vec![], body: vec![0, 1] }),
        Some(2)
    );
    assert_eq!(
        ast.add_stmt(Stmt::Class { name: name.clone(), superclass: Some(0), methods: vec![2] }),
        Some(3)
    );
    assert_eq!(
        ast.add_stmt(Stmt::Class { name, superclass: Some(9), methods: vec![2] }),
        None
    );
    assert_eq!(ast.stmts.len(), 4);
}
