//! Whole programs, from source text to printed output.

use rlox::ast::Ast;
use rlox::error::InterpreterError;
use rlox::interpreter::{Action, Interpreter, Printable};
use rlox::lox::{run, runtime_error, set_had_error, set_had_runtime_error, Diagnostics};
use rlox::lox_type::LoxType;
use rlox::machine::{ArithmeticOperator, Event};
use rlox::scanner::Scanner;
use rlox::token::Token;
use rlox::token_type::TokenType;

/// An interpreter with a host that computes on doubles, collects what is
/// printed and reads a clock that always shows 1234.
struct Session {
    ast: Ast,
    interpreter: Interpreter,
    diagnostics: Diagnostics,
    /// The lines that the programs printed.
    printed: Vec<String>,
    /// The message of the failure that stopped the last program, if any.
    failure: Option<String>,
}

fn tokens_of(source: &str, diagnostics: &mut Diagnostics) -> Vec<Token> {
    let mut scanner = Scanner::new(source);
    let mut tokens = scanner.scan_tokens(diagnostics);
    for token in tokens.iter_mut() {
        if token.token_type == TokenType::Number {
            let value: f64 = token.lexeme.parse().unwrap();
            token.literal = Some(LoxType::Number(value.to_bits()));
        }
    }
    tokens
}

fn compute(operator: ArithmeticOperator, left: u64, right: u64) -> u64 {
    let (a, b) = (f64::from_bits(left), f64::from_bits(right));
    let result = match operator {
        ArithmeticOperator::Add => a + b,
        ArithmeticOperator::Subtract => a - b,
        ArithmeticOperator::Multiply => a * b,
        ArithmeticOperator::Divide => a / b,
    };
    result.to_bits()
}

impl Session {
    fn new() -> Session {
        Session {
            ast: Ast::new(),
            interpreter: Interpreter::new(),
            diagnostics: Diagnostics::new(),
            printed: Vec::new(),
            failure: None,
        }
    }

    /// Runs one piece of program text to its end.
    fn feed(&mut self, source: &str) {
        self.failure = None;
        let tokens = tokens_of(source, &mut self.diagnostics);
        if !run(tokens, &mut self.ast, &mut self.interpreter, &mut self.diagnostics) {
            return;
        }
        let mut event = Event::Tick;
        let mut steps = 0;
        loop {
            steps += 1;
            assert!(steps < 1_000_000, "the program does not end");
            let action = self.interpreter.step(&self.ast, event);
            event = Event::Tick;
            match action {
                Action::Continue => {}
                Action::Print(Printable::Text(text)) => self.printed.push(text),
                Action::Print(Printable::Number(bits)) => {
                    self.printed.push(format!("{}", f64::from_bits(bits)))
                }
                Action::Arithmetic { operator, left, right } => {
                    event = Event::Number(compute(operator, left, right));
                }
                Action::Clock => event = Event::Number(1234.0f64.to_bits()),
                Action::Done => break,
                Action::Halt(error) => {
                    if let InterpreterError::RuntimeError(ref inner) = error {
                        self.failure = Some(inner.message.clone());
                    }
                    runtime_error(&mut self.diagnostics, error);
                    break;
                }
            }
        }
    }
}

/// The scopes that are current one after the other while the program runs.
fn scopes(source: &str) -> Vec<usize> {
    let mut session = Session::new();
    let tokens = tokens_of(source, &mut session.diagnostics);
    assert!(run(tokens, &mut session.ast, &mut session.interpreter, &mut session.diagnostics));
    let mut seen = vec![session.interpreter.scope()];
    let mut event = Event::Tick;
    loop {
        let action = session.interpreter.step(&session.ast, event);
        event = Event::Tick;
        if *seen.last().unwrap() != session.interpreter.scope() {
            seen.push(session.interpreter.scope());
        }
        match action {
            Action::Arithmetic { operator, left, right } => {
                event = Event::Number(compute(operator, left, right));
            }
            Action::Done | Action::Halt(_) => break,
            _ => {}
        }
    }
    seen
}

/// What the program prints, given that nothing goes wrong.
fn printed(source: &str) -> Vec<String> {
    let mut session = Session::new();
    session.feed(source);
    assert_eq!(session.diagnostics.take_lines(), Vec::<String>::new());
    assert_eq!(session.failure, None);
    assert_eq!(session.diagnostics.exit_code(), 0);
    session.printed
}

/// The message of the failure that stops the program while it runs.
fn failure(source: &str) -> String {
    let mut session = Session::new();
    session.feed(source);
    assert_eq!(session.diagnostics.exit_code(), 70);
    session.failure.expect("the program fails")
}

/// The reports about a program that is rejected before it runs.
fn rejected(source: &str) -> Vec<String> {
    let mut session = Session::new();
    session.feed(source);
    assert_eq!(session.printed, Vec::<String>::new());
    assert_eq!(session.diagnostics.exit_code(), 65);
    session.diagnostics.take_lines()
}

#[test]
fn shadowing_in_a_block_ends_with_the_block() {
    assert_eq!(printed("var a = 1; { var a = 2; print a; } print a;"), vec!["2", "1"]);
}

#[test]
fn arithmetic_follows_precedence() {
    assert_eq!(printed("print 1 + 2 * 3 - 4 / 2;"), vec!["5"]);
    assert_eq!(printed("print (1 + 2) * 3;"), vec!["9"]);
    assert_eq!(printed("print -3 + 1;"), vec!["-2"]);
    assert_eq!(printed("print 7 / 2;"), vec!["3.5"]);
    assert_eq!(printed("print 10 - 2 - 3;"), vec!["5"]);
}

#[test]
fn strings_concatenate() {
    assert_eq!(printed("print \"foo\" + \"bar\";"), vec!["foobar"]);
    assert_eq!(printed("print \"\" + \"\";"), vec![""]);
}

#[test]
fn counters_of_separate_calls_are_independent() {
    let source = "
        fun makeCounter() {
            var i = 0;
            fun count() { i = i + 1; return i; }
            return count;
        }
        var a = makeCounter();
        var b = makeCounter();
        print a(); print a(); print a();
        print b();
        print a();
    ";
    assert_eq!(printed(source), vec!["1", "2", "3", "1", "4"]);
}

#[test]
fn closures_of_one_call_share_their_variable() {
    let source = "
        var increment; var read;
        fun make() {
            var n = 0;
            fun i() { n = n + 1; }
            fun r() { return n; }
            increment = i;
            read = r;
        }
        make();
        increment(); increment();
        print read();
        increment();
        print read();
    ";
    assert_eq!(printed(source), vec!["2", "3"]);
}

#[test]
fn closure_keeps_the_variable_it_was_declared_with() {
    let source = "
        var a = \"global\";
        {
            fun show() { print a; }
            show();
            var a = \"block\";
            show();
        }
    ";
    assert_eq!(printed(source), vec!["global", "global"]);
}

#[test]
fn each_iteration_of_a_loop_has_its_own_scope() {
    let source = "
        var first; var second;
        var i = 0;
        while (i < 2) {
            var mine = i;
            fun get() { return mine; }
            if (i == 0) first = get; else second = get;
            i = i + 1;
        }
        print first(); print second();
    ";
    assert_eq!(printed(source), vec!["0", "1"]);
}

#[test]
fn super_calls_the_method_of_the_superclass() {
    let source = "
        class A { greet() { return \"A\"; } }
        class B < A { greet() { return super.greet() + \"B\"; } }
        print B().greet();
    ";
    assert_eq!(printed(source), vec!["AB"]);
}

#[test]
fn super_starts_above_the_class_that_declares_the_method() {
    let source = "
        class A { name() { return \"A\"; } who() { return this.tag; } }
        class B < A { name() { return \"B\" + super.name(); } }
        class C < B { }
        var c = C();
        c.tag = \"c\";
        print c.name();
        print c.who();
    ";
    assert_eq!(printed(source), vec!["BA", "c"]);
}

#[test]
fn super_method_sees_the_most_derived_instance() {
    let source = "
        class A { describe() { return this.kind(); } kind() { return \"A\"; } }
        class B < A { describe() { return super.describe(); } kind() { return \"B\"; } }
        print B().describe();
    ";
    assert_eq!(printed(source), vec!["B"]);
}

#[test]
fn initializer_sets_fields_and_gives_the_instance() {
    assert_eq!(printed("class C { init(x) { this.x = x; } } var c = C(5); print c.x;"), vec!["5"]);
    assert_eq!(
        printed("class C { init(x) { this.x = x; return; } } var c = C(5); print c.x; print c;"),
        vec!["5", "<instance C>"]
    );
    assert_eq!(
        printed("class C { init(x) { this.x = x; } } var c = C(5); var d = c.init(7); print d.x; print c == d;"),
        vec!["7", "true"]
    );
}

#[test]
fn class_without_initializer_ignores_arguments() {
    assert_eq!(printed("class C { } print C();"), vec!["<instance C>"]);
}

#[test]
fn wrong_number_of_arguments_names_both_numbers() {
    assert_eq!(failure("fun f(a, b) { } f(1);"), "Expected 2 arguments but got 1.");
    assert_eq!(failure("fun f(a, b) { } f(1, 2, 3);"), "Expected 2 arguments but got 3.");
    assert_eq!(failure("clock(1);"), "Expected 0 arguments but got 1.");
    assert_eq!(failure("class C { init(x) { } } C();"), "Expected 1 arguments but got 0.");
    assert_eq!(printed("fun f(a, b) { return a + b; } print f(1, 2);"), vec!["3"]);
}

#[test]
fn long_argument_lists_are_counted_in_decimal() {
    let source = "fun f() { } f(1, 2, 3, 4, 5, 6, 7, 8, 9, 10, 11, 12);";
    assert_eq!(failure(source), "Expected 0 arguments but got 12.");
}

#[test]
fn undefined_names_are_reported_by_name() {
    assert_eq!(failure("print x;"), "Undefined variable 'x'.");
    assert_eq!(failure("x = 1;"), "Undefined variable 'x'.");
    assert_eq!(failure("class A { } A().foo;"), "Undefined property 'foo'.");
    assert_eq!(failure("{ print missing; }"), "Undefined variable 'missing'.");
}

#[test]
fn runtime_failure_is_reported_with_its_line() {
    let mut session = Session::new();
    session.feed("print 1;\nprint x;\nprint 2;");
    assert_eq!(session.printed, vec!["1"]);
    assert_eq!(session.diagnostics.take_lines(), vec!["Undefined variable 'x'.\n[line 2]"]);
    assert_eq!(session.diagnostics.exit_code(), 70);
}

#[test]
fn operators_check_their_operands() {
    assert_eq!(failure("print 1 - \"a\";"), "Operands must be numbers.");
    assert_eq!(failure("print \"a\" * 2;"), "Operands must be numbers.");
    assert_eq!(failure("print nil / 2;"), "Operands must be numbers.");
    assert_eq!(failure("print 1 < \"a\";"), "Operands must be numbers.");
    assert_eq!(failure("print true >= 1;"), "Operands must be numbers.");
    assert_eq!(failure("print -\"a\";"), "Operand must be a number.");
    assert_eq!(failure("print 1 + \"a\";"), "Operands must be two numbers or two strings.");
    assert_eq!(failure("print \"a\" + nil;"), "Operands must be two numbers or two strings.");
}

#[test]
fn only_functions_and_classes_can_be_called() {
    assert_eq!(failure("\"text\"();"), "Can only call functions and classes.");
    assert_eq!(failure("var a = 1; a();"), "Can only call functions and classes.");
    assert_eq!(failure("class A { } A()();"), "Can only call functions and classes.");
}

#[test]
fn only_instances_have_properties_and_fields() {
    assert_eq!(failure("var a = 1; print a.b;"), "Only instances have properties.");
    assert_eq!(failure("var a = \"s\"; a.b = 1;"), "Only instances have fields.");
    assert_eq!(failure("class A { } A.b = 1;"), "Only instances have fields.");
}

#[test]
fn superclass_must_be_a_class() {
    assert_eq!(failure("var NotAClass = 1; class A < NotAClass { }"), "Superclass must be a class.");
}

#[test]
fn equality_never_fails() {
    assert_eq!(printed("print 1 == 1;"), vec!["true"]);
    assert_eq!(printed("print 1 == \"1\";"), vec!["false"]);
    assert_eq!(printed("print nil == false;"), vec!["false"]);
    assert_eq!(printed("print nil == nil;"), vec!["true"]);
    assert_eq!(printed("print \"a\" == \"a\";"), vec!["true"]);
    assert_eq!(printed("print \"a\" != \"b\";"), vec!["true"]);
    assert_eq!(printed("print 0 == -0;"), vec!["true"]);
    assert_eq!(printed("print (0 / 0) == (0 / 0);"), vec!["false"]);
    assert_eq!(printed("print (0 / 0) != (0 / 0);"), vec!["true"]);
    assert_eq!(printed("fun f() { } print f == f;"), vec!["true"]);
    assert_eq!(printed("fun f() { } fun g() { } print f == g;"), vec!["false"]);
    assert_eq!(printed("class A { } print A == A; print A() == A();"), vec!["true", "false"]);
}

#[test]
fn bound_methods_are_separate_values() {
    let source = "
        class A { m() { return this; } }
        var a = A();
        var m = a.m;
        print m == m;
        print a.m == a.m;
        print m() == a;
    ";
    assert_eq!(printed(source), vec!["true", "false", "true"]);
}

#[test]
fn comparisons_order_numbers() {
    assert_eq!(printed("print 1 < 2; print 2 < 1; print 2 < 2;"), vec!["true", "false", "false"]);
    assert_eq!(printed("print 1 <= 2; print 2 <= 1; print 2 <= 2;"), vec!["true", "false", "true"]);
    assert_eq!(printed("print 1 > 2; print 2 > 1; print 2 > 2;"), vec!["false", "true", "false"]);
    assert_eq!(printed("print 1 >= 2; print 2 >= 1; print 2 >= 2;"), vec!["false", "true", "true"]);
    assert_eq!(printed("print -1 < 1; print -2 < -1; print -1 < -2;"), vec!["true", "true", "false"]);
    assert_eq!(printed("print 0 < -0; print 0 <= -0; print 0.5 > 0.25;"), vec!["false", "true", "true"]);
    assert_eq!(printed("print (0 / 0) < 1; print (0 / 0) >= 1;"), vec!["false", "false"]);
}

#[test]
fn logical_operators_give_an_operand() {
    assert_eq!(printed("print nil or \"yes\";"), vec!["yes"]);
    assert_eq!(printed("print \"first\" or \"second\";"), vec!["first"]);
    assert_eq!(printed("print false and 1;"), vec!["false"]);
    assert_eq!(printed("print 0 and 1;"), vec!["1"]);
    assert_eq!(printed("print nil and 1;"), vec!["nil"]);
    assert_eq!(printed("print false or false;"), vec!["false"]);
}

#[test]
fn logical_operators_skip_the_right_operand() {
    let source = "
        var called = false;
        fun touch() { called = true; return true; }
        print true or touch();
        print called;
        print false and touch();
        print called;
        print false or touch();
        print called;
    ";
    assert_eq!(printed(source), vec!["true", "false", "false", "false", "true", "true"]);
}

#[test]
fn truthiness_in_conditions() {
    assert_eq!(printed("if (0) print \"yes\"; else print \"no\";"), vec!["yes"]);
    assert_eq!(printed("if (\"\") print \"yes\"; else print \"no\";"), vec!["yes"]);
    assert_eq!(printed("if (nil) print \"yes\"; else print \"no\";"), vec!["no"]);
    assert_eq!(printed("if (false) print \"yes\"; else print \"no\";"), vec!["no"]);
    assert_eq!(printed("if (false) print \"yes\";"), Vec::<String>::new());
    assert_eq!(printed("print !nil; print !0; print !!\"\";"), vec!["true", "false", "true"]);
}

#[test]
fn loops_run_while_the_condition_holds() {
    assert_eq!(printed("var i = 0; while (i < 3) { print i; i = i + 1; }"), vec!["0", "1", "2"]);
    assert_eq!(printed("var i; for (i = 0; i < 3; i = i + 1) print i;"), vec!["0", "1", "2"]);
    assert_eq!(printed("var i = 5; for (; i < 7;) { print i; i = i + 1; }"), vec!["5", "6"]);
    assert_eq!(printed("var i; for (i = 1; i < 3; i = i + 1) { } print i;"), vec!["3"]);
    assert_eq!(
        printed("for (var i = 0; i < 3;\n i = i + 1)\n print i;\nvar i = \"after\"; print i;"),
        vec!["0", "1", "2", "after"]
    );
}

#[test]
fn for_without_condition_runs_until_return() {
    let source = "fun f() {\n for (var i = 0;;\n i = i + 1) {\n if (i == 3) return i;\n }\n }\n print f();";
    assert_eq!(printed(source), vec!["3"]);
}

#[test]
fn recursion_reaches_its_base() {
    let source = "fun fib(n) { if (n < 2) return n; return fib(n - 1) + fib(n - 2); } print fib(10);";
    assert_eq!(printed(source), vec!["55"]);
}

#[test]
fn top_level_functions_may_refer_to_each_other() {
    let source = "
        fun even(n) { if (n == 0) return true; return odd(n - 1); }
        fun odd(n) { if (n == 0) return false; return even(n - 1); }
        print even(4); print odd(4);
    ";
    assert_eq!(printed(source), vec!["true", "false"]);
}

#[test]
fn return_leaves_nested_blocks_and_loops() {
    let source = "
        var a = \"outer\";
        fun f() { var a = \"inner\"; while (true) { { return a; } } }
        print f();
        print a;
    ";
    assert_eq!(printed(source), vec!["inner", "outer"]);
}

#[test]
fn function_without_return_gives_nil() {
    assert_eq!(printed("fun f() { } print f();"), vec!["nil"]);
    assert_eq!(printed("fun f() { return; } print f();"), vec!["nil"]);
    assert_eq!(printed("fun f() { return nil; } print f();"), vec!["nil"]);
}

#[test]
fn values_are_shown() {
    assert_eq!(printed("print nil; print true; print false;"), vec!["nil", "true", "false"]);
    assert_eq!(printed("print 12; print 1.5; print -0.25; print 100;"), vec!["12", "1.5", "-0.25", "100"]);
    assert_eq!(printed("print \"text\";"), vec!["text"]);
    assert_eq!(printed("print clock;"), vec!["<native func>"]);
    assert_eq!(printed("fun named() { } print named;"), vec!["<fn named>"]);
    assert_eq!(printed("class Cake { } print Cake; print Cake();"), vec!["<class Cake>", "<instance Cake>"]);
    assert_eq!(printed("class Cake { bake() { } } print Cake().bake;"), vec!["<fn bake>"]);
}

#[test]
fn clock_asks_the_host() {
    assert_eq!(printed("print clock();"), vec!["1234"]);
    assert_eq!(printed("print clock() + 1;"), vec!["1235"]);
}

#[test]
fn variables_start_as_nil_and_can_be_declared_again() {
    assert_eq!(printed("var a; print a;"), vec!["nil"]);
    assert_eq!(printed("var a = 1; var a = 2; print a;"), vec!["2"]);
    assert_eq!(printed("var a = 1; a = a + 1; print a; print a = 5;"), vec!["2", "5"]);
}

#[test]
fn assignment_changes_the_scope_that_declares_the_variable() {
    let source = "
        var a = 1;
        {
            var a = 2;
            {
                a = 3;
                print a;
            }
            print a;
        }
        print a;
    ";
    assert_eq!(printed(source), vec!["3", "3", "1"]);
    let source = "
        var a = 1;
        {
            var b = 2;
            {
                var c = 3;
                a = 10; b = 20; c = 30;
                print a + b + c;
            }
            print a + b;
        }
        print a;
    ";
    assert_eq!(printed(source), vec!["60", "30", "10"]);
}

#[test]
fn fields_hide_methods_and_never_change_the_class() {
    let source = "
        class A { f() { return \"method\"; } }
        var a = A();
        var b = A();
        print a.f();
        a.f = \"field\";
        print a.f;
        print b.f();
    ";
    assert_eq!(printed(source), vec!["method", "field", "method"]);
}

#[test]
fn methods_keep_their_instance() {
    let source = "
        class Person {
            init(name) { this.name = name; }
            hello() { return \"Hello, \" + this.name; }
        }
        var jane = Person(\"Jane\");
        var hello = jane.hello;
        jane = nil;
        print hello();
    ";
    assert_eq!(printed(source), vec!["Hello, Jane"]);
}

#[test]
fn methods_are_inherited() {
    let source = "
        class A { a() { return \"a\"; } both() { return \"A\"; } }
        class B < A { b() { return \"b\"; } both() { return \"B\"; } }
        var b = B();
        print b.a(); print b.b(); print b.both();
    ";
    assert_eq!(printed(source), vec!["a", "b", "B"]);
}

#[test]
fn setting_a_property_gives_the_value() {
    assert_eq!(printed("class A { } var a = A(); print a.x = 3; print a.x;"), vec!["3", "3"]);
    assert_eq!(printed("class A { } var a = A(); a.b = A(); a.b.c = 1; print a.b.c;"), vec!["1"]);
}

#[test]
fn return_outside_a_function_is_rejected() {
    assert_eq!(rejected("return 1;"), vec!["[line 1] Error at 'return': Can't return from top-level code."]);
    assert_eq!(rejected("print 1; { return; }"), vec!["[line 1] Error at 'return': Can't return from top-level code."]);
}

#[test]
fn returning_a_value_from_an_initializer_is_rejected() {
    assert_eq!(
        rejected("class A { init() { return 1; } }"),
        vec!["[line 1] Error at 'return': Can't return a value from an initializer."]
    );
}

#[test]
fn this_and_super_outside_their_place_are_rejected() {
    assert_eq!(rejected("print this;"), vec!["[line 1] Error at 'this': Can't use 'this' outside of a class."]);
    assert_eq!(
        rejected("fun f() { return this; }"),
        vec!["[line 1] Error at 'this': Can't use 'this' outside of a class."]
    );
    assert_eq!(
        rejected("super.m();"),
        vec!["[line 1] Error at 'super': Can't use 'super' outside of a class."]
    );
    assert_eq!(
        rejected("class A { m() { super.m(); } }"),
        vec!["[line 1] Error at 'super': Can't use 'super' in a class with no superclass."]
    );
}

#[test]
fn a_class_cannot_inherit_from_itself() {
    assert_eq!(rejected("class A < A { }"), vec!["[line 1] Error at 'A': A class can't inherit from itself."]);
}

#[test]
fn declaring_a_local_twice_is_rejected() {
    assert_eq!(
        rejected("{ var a = 1;\n var a = 2; }"),
        vec!["[line 2] Error at 'a': Already a variable with this name in this scope."]
    );
    assert_eq!(
        rejected("fun f(a, a) { }"),
        vec!["[line 1] Error at 'a': Already a variable with this name in this scope."]
    );
}

#[test]
fn reading_a_local_in_its_own_initializer_is_rejected() {
    assert_eq!(
        rejected("var a = 1; { var a = a; }"),
        vec!["[line 1] Error at 'a': Can't read local variable in its own initializer."]
    );
}

#[test]
fn all_static_errors_are_reported_and_nothing_runs() {
    let reports = rejected("print \"start\";\nreturn 1;\nprint this;\n{ var a; var a; }");
    assert_eq!(
        reports,
        vec![
            "[line 2] Error at 'return': Can't return from top-level code.",
            "[line 3] Error at 'this': Can't use 'this' outside of a class.",
            "[line 4] Error at 'a': Already a variable with this name in this scope.",
        ]
    );
}

#[test]
fn syntax_errors_are_reported_where_they_are_found() {
    assert_eq!(rejected("print ;"), vec!["[line 1] Error at ';': Expect expression."]);
    assert_eq!(rejected("print 1"), vec!["[line 1] Error at end: Expect ';' after value."]);
    assert_eq!(rejected("1 + 2"), vec!["[line 1] Error at end: Expect ';' after expression."]);
    assert_eq!(rejected("var 1 = 2;"), vec!["[line 1] Error at '1': Expect variable name."]);
    assert_eq!(rejected("var a = 1"), vec!["[line 1] Error at end: Expect ';' after variable declaration."]);
    assert_eq!(rejected("(1 + 2;"), vec!["[line 1] Error at ';': Expect ')' after expression."]);
    assert_eq!(rejected("1 = 2;"), vec!["[line 1] Error at '=': Invalid assignment target."]);
    assert_eq!(rejected("{ print 1;"), vec!["[line 1] Error at end: Expect '}' after block."]);
    assert_eq!(rejected("if 1) print 1;"), vec!["[line 1] Error at '1': Expect '(' after 'if'."]);
    assert_eq!(rejected("if (1 print 1;"), vec!["[line 1] Error at 'print': Expect ')' after if condition."]);
    assert_eq!(rejected("while 1) print 1;"), vec!["[line 1] Error at '1': Expect '(' after 'while'."]);
    assert_eq!(rejected("while (1 print 1;"), vec!["[line 1] Error at 'print': Expect ')' after condition."]);
    assert_eq!(rejected("for 1; print 1;"), vec!["[line 1] Error at '1': Expect '(' after 'for'."]);
    assert_eq!(rejected("for (;1 2) print 1;"), vec!["[line 1] Error at '2': Expect ';' after loop condition."]);
    assert_eq!(rejected("for (;;1 2) print 1;"), vec!["[line 1] Error at '2': Expect ')' after for clauses."]);
    assert_eq!(rejected("f(1;"), vec!["[line 1] Error at ';': Expect ')' after arguments."]);
    assert_eq!(rejected("a.1;"), vec!["[line 1] Error at '1': Expect property name after '.'."]);
    assert_eq!(rejected("fun f() { return 1 }"), vec!["[line 1] Error at '}': Expect ';' after return value."]);
}

#[test]
fn syntax_errors_in_declarations_name_the_kind() {
    assert_eq!(rejected("fun 1() { }"), vec!["[line 1] Error at '1': Expect function name."]);
    assert_eq!(rejected("fun f { }"), vec!["[line 1] Error at '{': Expect '(' after function name."]);
    assert_eq!(rejected("fun f(1) { }"), vec!["[line 1] Error at '1': Expect parameter name."]);
    assert_eq!(rejected("fun f(a { }"), vec!["[line 1] Error at '{': Expect ')' after parameters."]);
    assert_eq!(rejected("fun f() 1;"), vec!["[line 1] Error at '1': Expect '{' before function body."]);
    assert_eq!(rejected("class 1 { }"), vec!["[line 1] Error at '1': Expect class name."]);
    assert_eq!(rejected("class A < 1 { }"), vec!["[line 1] Error at '1': Expect superclass name."]);
    assert_eq!(rejected("class A 1"), vec!["[line 1] Error at '1': Expect '{' before class body."]);
    assert_eq!(rejected("class A { m() { }"), vec!["[line 1] Error at end: Expect '}' after class body."]);
    assert_eq!(rejected("class A { 1 }"), vec!["[line 1] Error at '1': Expect method name."]);
    assert_eq!(rejected("class A { m { } }"), vec!["[line 1] Error at '{': Expect '(' after method name."]);
    assert_eq!(rejected("class A { m() 1 }"), vec!["[line 1] Error at '1': Expect '{' before method body."]);
    assert_eq!(rejected("super;"), vec!["[line 1] Error at ';': Expect '.' after 'super'."]);
    assert_eq!(rejected("super.1;"), vec!["[line 1] Error at '1': Expect superclass method name."]);
}

#[test]
fn parsing_takes_up_again_after_an_error() {
    let reports = rejected("var = 1;\nprint 2;\nprint ;\nvar b = 3;");
    assert_eq!(
        reports,
        vec![
            "[line 1] Error at '=': Expect variable name.",
            "[line 3] Error at ';': Expect expression.",
        ]
    );
}

#[test]
fn scanner_errors_are_reported_with_their_line() {
    assert_eq!(rejected("print \"open;"), vec!["[line 1] Error: Unterminated string."]);
    assert_eq!(rejected("print 1;\n@"), vec!["[line 2] Error: Unexpected character -> @ <-"]);
    assert_eq!(
        rejected("var a = \"one\ntwo\nthree;"),
        vec!["[line 3] Error: Unterminated string."]
    );
}

#[test]
fn references_with_the_same_text_on_one_line_share_one_distance() {
    // The table of distances knows a reference by its text and its line:
    // of two references to `a` on one line, the one resolved last decides
    // for both. Here that is the outer one, at distance 0, and the inner
    // block itself declares no `a`.
    let mut session = Session::new();
    session.feed("var a = \"global\";\n{ var a = \"local\"; { print a; } print a; }");
    assert_eq!(session.printed, Vec::<String>::new());
    assert_eq!(session.failure, Some("Undefined variable 'a'.".to_string()));
    let mut session = Session::new();
    session.feed("var a = \"global\";\n{ var a = \"local\"; {\n print a; }\n print a; }");
    assert_eq!(session.failure, None);
    assert_eq!(session.printed, vec!["local", "local"]);
}

#[test]
fn every_way_out_of_a_block_brings_the_scope_back() {
    // Running to the end.
    assert_eq!(scopes("{ { var a; } var b; }"), vec![0, 1, 2, 1, 0]);
    // A failure leaves the blocks one by one.
    assert_eq!(scopes("{ { print missing; } }"), vec![0, 1, 2, 1, 0]);
    // A return leaves the blocks of the body one by one, and the call gives
    // the scope of the caller back.
    assert_eq!(scopes("fun f() { { return 1; } }\n{ f(); var a; }"), vec![0, 1, 2, 3, 2, 1, 0]);
    // A failure in a call does the same, all the way down.
    assert_eq!(scopes("fun f() { { print missing; } }\n{ f(); }"), vec![0, 1, 2, 3, 2, 1, 0]);
}

#[test]
fn comments_and_white_space_are_skipped() {
    assert_eq!(printed("// nothing\nprint 1; // one\n\t print 2;\r\n// end"), vec!["1", "2"]);
}

#[test]
fn strings_may_span_lines() {
    assert_eq!(printed("print \"one\ntwo\";"), vec!["one\ntwo"]);
    let mut session = Session::new();
    session.feed("var a = \"one\ntwo\";\nprint b;");
    assert_eq!(session.diagnostics.take_lines(), vec!["Undefined variable 'b'.\n[line 3]"]);
}

#[test]
fn a_failure_ends_the_program_but_not_the_session() {
    let mut session = Session::new();
    session.feed("var a = 1; { var b = 2; print missing; } print \"never\";");
    assert_eq!(session.failure, Some("Undefined variable 'missing'.".to_string()));
    assert_eq!(session.printed, Vec::<String>::new());
    set_had_runtime_error(&mut session.diagnostics, false);
    session.feed("print a; var b = 3; print b;");
    assert_eq!(session.failure, None);
    assert_eq!(session.printed, vec!["1", "3"]);
}

#[test]
fn later_programs_see_what_earlier_ones_declared() {
    let mut session = Session::new();
    session.feed("fun twice(x) { return x + x; } class A { m() { return \"m\"; } } var a = A();");
    session.feed("print twice(4); print a.m();");
    session.feed("var b = twice(\"ab\"); print b;");
    assert_eq!(session.printed, vec!["8", "m", "abab"]);
    assert_eq!(session.diagnostics.take_lines(), Vec::<String>::new());
}

#[test]
fn a_rejected_program_leaves_the_session_usable() {
    let mut session = Session::new();
    session.feed("var a = 1;");
    session.feed("print ;");
    assert_eq!(session.diagnostics.exit_code(), 65);
    session.feed("print a;");
    assert_eq!(session.printed, Vec::<String>::new());
    set_had_error(&mut session.diagnostics, false);
    session.feed("print a;");
    assert_eq!(session.printed, vec!["1"]);
    assert_eq!(session.diagnostics.exit_code(), 0);
}

#[test]
fn many_parameters_and_arguments_are_reported() {
    let names: Vec<String> = (0..256).map(|i| format!("p{}", i)).collect();
    let source = format!("fun f({}) {{ }}", names.join(", "));
    assert_eq!(rejected(&source), vec!["[line 1] Error at 'p255': Can't have more than 255 parameters."]);
    let values: Vec<String> = (0..256).map(|i| format!("{}", i)).collect();
    let source = format!("f({});", values.join(", "));
    assert_eq!(rejected(&source), vec!["[line 1] Error at '255': Can't have more than 255 arguments."]);
}

#[test]
fn deep_recursion_of_the_program_does_not_grow_the_host_stack() {
    let source = "fun down(n) { if (n == 0) return 0; return down(n - 1); } print down(5000);";
    assert_eq!(printed(source), vec!["0"]);
}
