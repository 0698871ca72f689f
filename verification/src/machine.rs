//! What the interpreter does, as a mathematical machine.
//!
//! A state holds the scopes, classes and instances made so far, the scope in
//! which the program currently runs, a stack of frames that say what is left
//! to do, and a control that says what to do next. `step` maps a state and
//! an event of the host to the next state and an action for the host. The
//! machine itself never waits, prints, reads a clock or rounds a number: it
//! asks the host to.

use vstd::prelude::*;

use crate::ast::{is_primitive, Ast, Expr, Stmt};
use crate::class::{find_method, ClassView, InstanceView};
use crate::environment::{ancestor, bind, lookup_at, ScopeView};
use crate::error::{
    arity_mismatch, failure, undefined_property, undefined_variable, InterpreterErrorView,
};
use crate::function::{arity_of, bound_scopes, Function, NativeFunction};
use crate::lox_type::{truthy, values_equal, Value};
use crate::number::{negated, number_le, number_lt};
use crate::token::Token;
use crate::token_type::TokenType;

verus! {

/// The operations on numbers that need rounding.
#[derive(Clone, Copy, Debug, PartialEq, Eq, Structural)]
pub enum ArithmeticOperator {
    Add,
    Subtract,
    Multiply,
    Divide,
}

/// What the host tells the machine.
#[derive(Clone, Copy, Debug, PartialEq, Eq, Structural)]
pub enum Event {
    /// Nothing: go on.
    Tick,
    /// The number that the last action asked for, as its bit pattern.
    Number(u64),
    /// The clock could not be read.
    Unavailable,
}

/// What is left to do once the work above a frame is done.
pub ghost enum FrameView {
    /// Run the statements of block or function `stmt` from `next` on.
    Sequence { stmt: usize, next: usize },
    /// Run the statements of the program from `next` on.
    Program { next: usize },
    /// Leave a block: go back to scope `previous`.
    EndBlock { previous: usize },
    /// Drop the value of an expression statement.
    Discard,
    /// Print the value.
    Print,
    /// Bind the variable of declaration `stmt` to the value.
    Define { stmt: usize },
    /// Choose the branch of `if` statement `stmt` by the value.
    Branch { stmt: usize },
    /// Run the body of `while` statement `stmt` if the value is truthy.
    Loop { stmt: usize },
    /// Run `while` statement `stmt` once more.
    Again { stmt: usize },
    /// Return the value.
    ReturnValue,
    /// Declare class `stmt` with the value as its superclass.
    Superclass { stmt: usize },
    /// Assign the value to the variable of expression `expr`.
    Assign { expr: usize },
    /// The value is the left operand of `expr`: evaluate the right one.
    BinaryLeft { expr: usize },
    /// The value is the right operand of `expr`: apply the operator.
    BinaryRight { expr: usize, left: Value },
    /// The value is the callee of call `expr`: evaluate the arguments.
    Callee { expr: usize },
    /// The value is the next argument of call `expr`.
    Argument { expr: usize, callee: Value, arguments: Seq<Value> },
    /// The value is the object whose property `expr` reads.
    GetObject { expr: usize },
    /// The value is the left operand of logical expression `expr`.
    LogicalLeft { expr: usize },
    /// The value is the object whose property `expr` writes.
    SetObject { expr: usize },
    /// The value is what `expr` writes to a field of `instance`.
    SetValue { expr: usize, instance: usize },
    /// The value is the operand of unary expression `expr`.
    UnaryOperand { expr: usize },
    /// The boundary of a call: a `return` stops here and the caller's scope
    /// `previous` comes back. `closure` is the scope that the called
    /// function captured.
    Call { previous: usize, closure: usize, is_initializer: bool },
    /// Whatever the initializer gave, the construction yields `instance`.
    Construct { instance: usize },
}

/// What to do next.
pub ghost enum ControlView {
    /// Nothing: no program is running.
    Idle,
    /// Execute this statement.
    Execute(usize),
    /// Evaluate this expression.
    Evaluate(usize),
    /// Hand this value to the top frame. A statement that has run to its
    /// end hands over nil.
    Deliver(Value),
    /// An interruption is on its way down the frames: a `return`, which
    /// goes as far as the nearest call frame, or a failure, which goes all
    /// the way.
    Unwinding(InterpreterErrorView),
    /// The host has been asked for `left operator right`.
    Arithmetic { operator: ArithmeticOperator, left: u64, right: u64 },
    /// The host has been asked for the time.
    Clock,
}

/// What the host shall print: a text as it is, or a number.
pub ghost enum PrintableView {
    Text(Seq<char>),
    Number(u64),
}

/// What the machine asks of the host.
pub ghost enum ActionView {
    /// Nothing: step again.
    Continue,
    /// Print this, then step again.
    Print(PrintableView),
    /// Compute `left operator right` on doubles and step with the result.
    Arithmetic { operator: ArithmeticOperator, left: u64, right: u64 },
    /// Read the clock and step with the milliseconds since the Unix epoch,
    /// as a double.
    Clock,
    /// The program has run to its end.
    Done,
    /// The run was stopped by this.
    Halt(InterpreterErrorView),
}

/// A state of the machine.
pub ghost struct State {
    pub scopes: Seq<ScopeView>,
    pub classes: Seq<ClassView>,
    pub instances: Seq<InstanceView>,
    /// For the references that scope resolution found, their distances.
    pub locals: Map<(Seq<char>, usize), usize>,
    /// The statements of the program that is running.
    pub program: Seq<usize>,
    /// The scope in which the program currently runs.
    pub env: usize,
    pub frames: Seq<FrameView>,
    pub control: ControlView,
}

/// Go on by handing `value` to the top frame.
pub open spec fn deliver(s: State, value: Value) -> (State, ActionView) {
    (State { control: ControlView::Deliver(value), ..s }, ActionView::Continue)
}

/// Go on with `control`.
pub open spec fn proceed(s: State, control: ControlView) -> (State, ActionView) {
    (State { control, ..s }, ActionView::Continue)
}

/// Put `frame` on the stack and go on with `control`.
pub open spec fn push(s: State, frame: FrameView, control: ControlView) -> (State, ActionView) {
    (State { frames: s.frames.push(frame), control, ..s }, ActionView::Continue)
}

/// Interrupt what is going on: from here on `error` travels down the
/// frames, one frame in each step.
pub open spec fn raise(s: State, error: InterpreterErrorView) -> (State, ActionView) {
    (State { control: ControlView::Unwinding(error), ..s }, ActionView::Continue)
}

/// Ask the host for `left operator right`.
pub open spec fn request(
    s: State,
    operator: ArithmeticOperator,
    left: u64,
    right: u64,
) -> (State, ActionView) {
    (
        State { control: ControlView::Arithmetic { operator, left, right }, ..s },
        ActionView::Arithmetic { operator, left, right },
    )
}

/// The statements inside block or function `stmt`.
pub open spec fn children(ast: &Ast, stmt: usize) -> Seq<usize> {
    if stmt < ast.stmts.len() {
        match ast.stmts[stmt as int] {
            Stmt::Block(body) => body@,
            Stmt::Function { body, .. } => body@,
            _ => Seq::empty(),
        }
    } else {
        Seq::empty()
    }
}

/// The parameters of function declaration `stmt`.
pub open spec fn parameters(ast: &Ast, stmt: usize) -> Seq<Token> {
    if stmt < ast.stmts.len() {
        match ast.stmts[stmt as int] {
            Stmt::Function { params, .. } => params@,
            _ => Seq::empty(),
        }
    } else {
        Seq::empty()
    }
}

/// The name of function declaration `stmt`.
pub open spec fn function_name(ast: &Ast, stmt: usize) -> Seq<char> {
    if stmt < ast.stmts.len() {
        match ast.stmts[stmt as int] {
            Stmt::Function { name, .. } => name.lexeme@,
            _ => Seq::empty(),
        }
    } else {
        Seq::empty()
    }
}

/// Whether expression `expr` is the literal nil, which is what a `return`
/// without a value carries.
pub open spec fn is_nil_literal(ast: &Ast, expr: usize) -> bool {
    expr < ast.exprs.len() && (ast.exprs[expr as int] matches Expr::Literal(value) && value@ is Nil)
}

/// The bindings of the first `count` parameters to the first `count`
/// arguments. A later parameter of the same name hides an earlier one.
pub open spec fn arguments_map(
    params: Seq<Token>,
    arguments: Seq<Value>,
    count: nat,
) -> Map<Seq<char>, Value>
    decreases count,
{
    if count == 0 {
        Map::empty()
    } else {
        let rest = arguments_map(params, arguments, (count - 1) as nat);
        if count <= params.len() && count <= arguments.len() {
            rest.insert(params[count - 1].lexeme@, arguments[count - 1])
        } else {
            rest
        }
    }
}

/// The methods that the first `count` declarations of `methods` make, each
/// closed over `closure`. A method named `init` is an initializer.
pub open spec fn method_table(
    ast: &Ast,
    methods: Seq<usize>,
    closure: usize,
    count: nat,
) -> Map<Seq<char>, Function>
    decreases count,
{
    if count == 0 {
        Map::empty()
    } else {
        let rest = method_table(ast, methods, closure, (count - 1) as nat);
        if count <= methods.len() && methods[count - 1] < ast.stmts.len() {
            match ast.stmts[methods[count - 1] as int] {
                Stmt::Function { name, .. } => rest.insert(
                    name.lexeme@,
                    Function::User {
                        declaration: methods[count - 1],
                        closure,
                        is_initializer: name.lexeme@ == "init"@,
                    },
                ),
                _ => rest,
            }
        } else {
            rest
        }
    }
}

/// How a value is shown.
pub open spec fn printable(s: State, ast: &Ast, value: Value) -> PrintableView {
    match value {
        Value::Boolean(b) => PrintableView::Text(
            if b {
                "true"@
            } else {
                "false"@
            },
        ),
        Value::Nil => PrintableView::Text("nil"@),
        Value::Number(bits) => PrintableView::Number(bits),
        Value::Text(text) => PrintableView::Text(text),
        Value::Callable(Function::Native { .. }) => PrintableView::Text("<native func>"@),
        Value::Callable(Function::User { declaration, .. }) => PrintableView::Text(
            "<fn "@ + function_name(ast, declaration) + ">"@,
        ),
        Value::Class(class) => PrintableView::Text("<class "@ + class_name(s, class) + ">"@),
        Value::Instance(instance) => PrintableView::Text(
            "<instance "@ + (if instance < s.instances.len() {
                class_name(s, s.instances[instance as int].class)
            } else {
                Seq::empty()
            }) + ">"@,
        ),
    }
}

/// The name of class `class`.
pub open spec fn class_name(s: State, class: usize) -> Seq<char> {
    if class < s.classes.len() {
        s.classes[class as int].name
    } else {
        Seq::empty()
    }
}

/// What a read of the variable `name` finds: at the recorded distance where
/// scope resolution recorded one, else in the global scope alone.
pub open spec fn variable(s: State, name: Token) -> Option<Value> {
    if s.locals.contains_key(name.key()) {
        lookup_at(s.scopes, s.env as int, s.locals[name.key()] as nat, name.lexeme@)
    } else {
        lookup_at(s.scopes, 0, 0, name.lexeme@)
    }
}

/// Read the variable `name`.
pub open spec fn lookup_variable(s: State, name: Token) -> (State, ActionView) {
    match variable(s, name) {
        Some(value) => deliver(s, value),
        None => raise(s, failure(Some(name), undefined_variable(name.lexeme@))),
    }
}

/// The scope in which an assignment to `name` lands, if the name is bound
/// where it is looked for: at the recorded distance where scope resolution
/// recorded one, else in the global scope alone.
pub open spec fn assignment_target(s: State, name: Token) -> Option<int> {
    let scope = if s.locals.contains_key(name.key()) {
        ancestor(s.scopes, s.env as int, s.locals[name.key()] as nat)
    } else {
        ancestor(s.scopes, 0, 0)
    };
    match scope {
        Some(target) => if s.scopes[target].values.contains_key(name.lexeme@) {
            Some(target)
        } else {
            None
        },
        None => None,
    }
}

/// Assign `value` to the variable `name`; the assignment has `value` as its
/// own value.
pub open spec fn write_variable(s: State, name: Token, value: Value) -> (State, ActionView) {
    match assignment_target(s, name) {
        Some(target) => deliver(
            State { scopes: bind(s.scopes, target, name.lexeme@, value), ..s },
            value,
        ),
        None => raise(s, failure(Some(name), undefined_variable(name.lexeme@))),
    }
}

/// `super.method`: the method is looked for from the superclass on, which
/// is bound to `super` at the distance recorded for `keyword`, and is bound
/// to the object that `this` names one scope further in.
pub open spec fn super_method(s: State, keyword: Token, method: Token) -> (State, ActionView) {
    if s.locals.contains_key(keyword.key()) && s.locals[keyword.key()] > 0 {
        let distance = s.locals[keyword.key()];
        match (
            lookup_at(s.scopes, s.env as int, distance as nat, "super"@),
            lookup_at(s.scopes, s.env as int, (distance - 1) as nat, "this"@),
        ) {
            (Some(Value::Class(superclass)), Some(object)) => match find_method(
                s.classes,
                superclass as int,
                method.lexeme@,
            ) {
                Some(Function::User { declaration, closure, is_initializer }) => deliver(
                    State { scopes: bound_scopes(s.scopes, closure, object), ..s },
                    Value::Callable(
                        Function::User {
                            declaration,
                            closure: s.scopes.len() as usize,
                            is_initializer,
                        },
                    ),
                ),
                Some(native) => deliver(s, Value::Callable(native)),
                None => raise(s, failure(Some(method), undefined_property(method.lexeme@))),
            },
            _ => raise(s, failure(Some(keyword), undefined_variable(keyword.lexeme@))),
        }
    } else {
        raise(s, failure(Some(keyword), undefined_variable(keyword.lexeme@)))
    }
}

/// Read property `name` of `object`: a field first, else a method of the
/// class, bound to the object.
pub open spec fn get_property(s: State, name: Token, object: Value) -> (State, ActionView) {
    match object {
        Value::Instance(instance) => if instance < s.instances.len() {
            let fields = s.instances[instance as int].fields;
            if fields.contains_key(name.lexeme@) {
                deliver(s, fields[name.lexeme@])
            } else {
                match find_method(s.classes, s.instances[instance as int].class as int, name.lexeme@) {
                    Some(Function::User { declaration, closure, is_initializer }) => deliver(
                        State { scopes: bound_scopes(s.scopes, closure, object), ..s },
                        Value::Callable(
                            Function::User {
                                declaration,
                                closure: s.scopes.len() as usize,
                                is_initializer,
                            },
                        ),
                    ),
                    Some(native) => deliver(s, Value::Callable(native)),
                    None => raise(s, failure(Some(name), undefined_property(name.lexeme@))),
                }
            }
        } else {
            raise(s, failure(Some(name), undefined_property(name.lexeme@)))
        },
        _ => raise(s, failure(Some(name), "Only instances have properties."@)),
    }
}

/// Apply a binary operator. Sums, differences, products and quotients of
/// numbers are asked of the host.
pub open spec fn binary(
    s: State,
    operator: Token,
    left: Value,
    right: Value,
) -> (State, ActionView) {
    let kind = operator.token_type;
    if kind == TokenType::BangEqual {
        deliver(s, Value::Boolean(!values_equal(left, right)))
    } else if kind == TokenType::EqualEqual {
        deliver(s, Value::Boolean(values_equal(left, right)))
    } else if kind == TokenType::Plus {
        match (left, right) {
            (Value::Number(a), Value::Number(b)) => request(s, ArithmeticOperator::Add, a, b),
            (Value::Text(a), Value::Text(b)) => deliver(s, Value::Text(a + b)),
            _ => raise(
                s,
                failure(Some(operator), "Operands must be two numbers or two strings."@),
            ),
        }
    } else {
        match (left, right) {
            (Value::Number(a), Value::Number(b)) => if kind == TokenType::Minus {
                request(s, ArithmeticOperator::Subtract, a, b)
            } else if kind == TokenType::Star {
                request(s, ArithmeticOperator::Multiply, a, b)
            } else if kind == TokenType::Slash {
                request(s, ArithmeticOperator::Divide, a, b)
            } else if kind == TokenType::Greater {
                deliver(s, Value::Boolean(number_lt(b, a)))
            } else if kind == TokenType::GreaterEqual {
                deliver(s, Value::Boolean(number_le(b, a)))
            } else if kind == TokenType::Less {
                deliver(s, Value::Boolean(number_lt(a, b)))
            } else if kind == TokenType::LessEqual {
                deliver(s, Value::Boolean(number_le(a, b)))
            } else {
                deliver(s, Value::Nil)
            },
            _ => raise(s, failure(Some(operator), "Operands must be numbers."@)),
        }
    }
}

/// Apply a unary operator.
pub open spec fn unary(s: State, operator: Token, operand: Value) -> (State, ActionView) {
    if operator.token_type == TokenType::Bang {
        deliver(s, Value::Boolean(!truthy(operand)))
    } else {
        match operand {
            Value::Number(bits) => deliver(s, Value::Number(negated(bits))),
            _ => raise(s, failure(Some(operator), "Operand must be a number."@)),
        }
    }
}

/// Run the statements of block or function `stmt` in scope `env`. The
/// scope that was current comes back when the statements are done.
pub open spec fn enter_block(s: State, stmt: usize, env: usize) -> (State, ActionView) {
    (
        State {
            env,
            frames: s.frames.push(FrameView::EndBlock { previous: s.env }).push(
                FrameView::Sequence { stmt, next: 0 },
            ),
            control: ControlView::Deliver(Value::Nil),
            ..s
        },
        ActionView::Continue,
    )
}

/// Enter `function` with `arguments`, whose number the caller has checked.
/// A declared function gets one new scope inside the scope it captured,
/// with its parameters bound to the arguments; its body runs in that scope,
/// above a call frame that remembers the caller's scope.
pub open spec fn call(
    s: State,
    ast: &Ast,
    function: Function,
    arguments: Seq<Value>,
) -> (State, ActionView) {
    match function {
        Function::Native { body: NativeFunction::Clock, .. } => (
            State { control: ControlView::Clock, ..s },
            ActionView::Clock,
        ),
        Function::User { declaration, closure, is_initializer } => enter_block(
            State {
                scopes: s.scopes.push(
                    ScopeView {
                        values: arguments_map(parameters(ast, declaration), arguments, arguments.len()),
                        enclosing: Some(closure),
                    },
                ),
                frames: s.frames.push(FrameView::Call { previous: s.env, closure, is_initializer }),
                ..s
            },
            declaration,
            s.scopes.len() as usize,
        ),
    }
}

/// Call `callee` with `arguments` at the closing parenthesis `paren`.
/// Calling a class makes an instance and runs the initializer on it, if
/// the class finds one.
pub open spec fn invoke(
    s: State,
    ast: &Ast,
    paren: Token,
    callee: Value,
    arguments: Seq<Value>,
) -> (State, ActionView) {
    match callee {
        Value::Callable(function) => if arguments.len() == arity_of(function, ast) {
            call(s, ast, function, arguments)
        } else {
            raise(
                s,
                failure(Some(paren), arity_mismatch(arity_of(function, ast), arguments.len())),
            )
        },
        Value::Class(class) => {
            let instance = s.instances.len() as usize;
            let made = State {
                instances: s.instances.push(InstanceView { class, fields: Map::empty() }),
                ..s
            };
            match find_method(s.classes, class as int, "init"@) {
                Some(Function::User { declaration, closure, is_initializer }) => if arguments.len()
                    == arity_of(Function::User { declaration, closure, is_initializer }, ast) {
                    call(
                        State {
                            scopes: bound_scopes(s.scopes, closure, Value::Instance(instance)),
                            frames: s.frames.push(FrameView::Construct { instance }),
                            ..made
                        },
                        ast,
                        Function::User {
                            declaration,
                            closure: s.scopes.len() as usize,
                            is_initializer,
                        },
                        arguments,
                    )
                } else {
                    raise(
                        made,
                        failure(
                            Some(paren),
                            arity_mismatch(
                                arity_of(Function::User { declaration, closure, is_initializer }, ast),
                                arguments.len(),
                            ),
                        ),
                    )
                },
                _ => deliver(made, Value::Instance(instance)),
            }
        },
        _ => raise(s, failure(Some(paren), "Can only call functions and classes."@)),
    }
}

/// Leave a call with `result`. The caller's scope comes back. An
/// initializer gives the instance it was bound to, whatever `result` is.
pub open spec fn finish_call(
    s: State,
    previous: usize,
    closure: usize,
    is_initializer: bool,
    result: Value,
) -> (State, ActionView) {
    let back = State { env: previous, ..s };
    if is_initializer {
        match lookup_at(s.scopes, closure as int, 0, "this"@) {
            Some(instance) => deliver(back, instance),
            None => raise(back, failure(None, "expect initializer to return this"@)),
        }
    } else {
        deliver(back, result)
    }
}

/// Make the class that statement `stmt` declares and bind its name to it.
/// With a superclass, the methods are closed over a new scope that binds
/// `super`.
pub open spec fn declare_class(
    s: State,
    ast: &Ast,
    stmt: usize,
    superclass: Option<usize>,
) -> (State, ActionView) {
    if stmt < ast.stmts.len() {
        match ast.stmts[stmt as int] {
            Stmt::Class { name, methods, .. } => {
                let scopes = match superclass {
                    Some(parent) => s.scopes.push(
                        ScopeView {
                            values: Map::empty().insert("super"@, Value::Class(parent)),
                            enclosing: Some(s.env),
                        },
                    ),
                    None => s.scopes,
                };
                let closure = match superclass {
                    Some(_) => s.scopes.len() as usize,
                    None => s.env,
                };
                let class = ClassView {
                    name: name.lexeme@,
                    superclass,
                    methods: method_table(ast, methods@, closure, methods.len() as nat),
                };
                deliver(
                    State {
                        scopes: bind(
                            scopes,
                            s.env as int,
                            name.lexeme@,
                            Value::Class(s.classes.len() as usize),
                        ),
                        classes: s.classes.push(class),
                        ..s
                    },
                    Value::Nil,
                )
            },
            _ => deliver(s, Value::Nil),
        }
    } else {
        deliver(s, Value::Nil)
    }
}

/// Start on statement `stmt`.
pub open spec fn execute(s: State, ast: &Ast, stmt: usize) -> (State, ActionView) {
    if stmt < ast.stmts.len() {
        match ast.stmts[stmt as int] {
            Stmt::Block(_) => enter_block(
                State {
                    scopes: s.scopes.push(
                        ScopeView { values: Map::empty(), enclosing: Some(s.env) },
                    ),
                    ..s
                },
                stmt,
                s.scopes.len() as usize,
            ),
            Stmt::Class { superclass, .. } => match superclass {
                Some(expr) => push(s, FrameView::Superclass { stmt }, ControlView::Evaluate(expr)),
                None => declare_class(s, ast, stmt, None),
            },
            Stmt::Expression(expr) => push(s, FrameView::Discard, ControlView::Evaluate(expr)),
            Stmt::Function { name, .. } => deliver(
                State {
                    scopes: bind(
                        s.scopes,
                        s.env as int,
                        name.lexeme@,
                        Value::Callable(
                            Function::User { declaration: stmt, closure: s.env, is_initializer: false },
                        ),
                    ),
                    ..s
                },
                Value::Nil,
            ),
            Stmt::If { condition, .. } => push(
                s,
                FrameView::Branch { stmt },
                ControlView::Evaluate(condition),
            ),
            Stmt::Print(expr) => push(s, FrameView::Print, ControlView::Evaluate(expr)),
            Stmt::Return { value, .. } => if is_nil_literal(ast, value) {
                raise(s, InterpreterErrorView::Return(Value::Nil))
            } else {
                push(s, FrameView::ReturnValue, ControlView::Evaluate(value))
            },
            Stmt::Var { initializer, .. } => push(
                s,
                FrameView::Define { stmt },
                ControlView::Evaluate(initializer),
            ),
            Stmt::While { condition, .. } => push(
                s,
                FrameView::Loop { stmt },
                ControlView::Evaluate(condition),
            ),
        }
    } else {
        deliver(s, Value::Nil)
    }
}

/// Start on expression `expr`.
pub open spec fn evaluate(s: State, ast: &Ast, expr: usize) -> (State, ActionView) {
    if expr < ast.exprs.len() {
        match ast.exprs[expr as int] {
            Expr::Assign { value, .. } => push(
                s,
                FrameView::Assign { expr },
                ControlView::Evaluate(value),
            ),
            Expr::Binary { left, .. } => push(
                s,
                FrameView::BinaryLeft { expr },
                ControlView::Evaluate(left),
            ),
            Expr::Call { callee, .. } => push(
                s,
                FrameView::Callee { expr },
                ControlView::Evaluate(callee),
            ),
            Expr::Get { object, .. } => push(
                s,
                FrameView::GetObject { expr },
                ControlView::Evaluate(object),
            ),
            Expr::Grouping(inner) => proceed(s, ControlView::Evaluate(inner)),
            Expr::Literal(value) => if is_primitive(value@) {
                deliver(s, value@)
            } else {
                deliver(s, Value::Nil)
            },
            Expr::Logical { left, .. } => push(
                s,
                FrameView::LogicalLeft { expr },
                ControlView::Evaluate(left),
            ),
            Expr::SetProperty { object, .. } => push(
                s,
                FrameView::SetObject { expr },
                ControlView::Evaluate(object),
            ),
            Expr::Super { keyword, method } => super_method(s, keyword, method),
            Expr::This(keyword) => lookup_variable(s, keyword),
            Expr::Unary { right, .. } => push(
                s,
                FrameView::UnaryOperand { expr },
                ControlView::Evaluate(right),
            ),
            Expr::Variable(name) => lookup_variable(s, name),
        }
    } else {
        deliver(s, Value::Nil)
    }
}

/// Go on with the statements `body` from `next`, under a frame that
/// `again` makes for the statement after.
pub open spec fn advance(
    s: State,
    body: Seq<usize>,
    next: usize,
    again: FrameView,
) -> (State, ActionView) {
    if next < body.len() {
        push(s, again, ControlView::Execute(body[next as int]))
    } else {
        deliver(s, Value::Nil)
    }
}

/// Hand `value` to `frame`, which has been taken off the stack of `s`.
pub open spec fn resume(
    s: State,
    ast: &Ast,
    frame: FrameView,
    value: Value,
) -> (State, ActionView) {
    match frame {
        FrameView::Sequence { stmt, next } => advance(
            s,
            children(ast, stmt),
            next,
            FrameView::Sequence { stmt, next: (next + 1) as usize },
        ),
        FrameView::Program { next } => advance(
            s,
            s.program,
            next,
            FrameView::Program { next: (next + 1) as usize },
        ),
        FrameView::EndBlock { previous } => deliver(State { env: previous, ..s }, Value::Nil),
        FrameView::Discard => deliver(s, Value::Nil),
        FrameView::Print => (
            State { control: ControlView::Deliver(Value::Nil), ..s },
            ActionView::Print(printable(s, ast, value)),
        ),
        FrameView::Define { stmt } => if stmt < ast.stmts.len() {
            match ast.stmts[stmt as int] {
                Stmt::Var { name, .. } => deliver(
                    State { scopes: bind(s.scopes, s.env as int, name.lexeme@, value), ..s },
                    Value::Nil,
                ),
                _ => deliver(s, Value::Nil),
            }
        } else {
            deliver(s, Value::Nil)
        },
        FrameView::Branch { stmt } => if stmt < ast.stmts.len() {
            match ast.stmts[stmt as int] {
                Stmt::If { then_branch, opt_else_branch, .. } => if truthy(value) {
                    proceed(s, ControlView::Execute(then_branch))
                } else {
                    match opt_else_branch {
                        Some(else_branch) => proceed(s, ControlView::Execute(else_branch)),
                        None => deliver(s, Value::Nil),
                    }
                },
                _ => deliver(s, Value::Nil),
            }
        } else {
            deliver(s, Value::Nil)
        },
        FrameView::Loop { stmt } => if stmt < ast.stmts.len() {
            match ast.stmts[stmt as int] {
                Stmt::While { body, .. } => if truthy(value) {
                    push(s, FrameView::Again { stmt }, ControlView::Execute(body))
                } else {
                    deliver(s, Value::Nil)
                },
                _ => deliver(s, Value::Nil),
            }
        } else {
            deliver(s, Value::Nil)
        },
        FrameView::Again { stmt } => proceed(s, ControlView::Execute(stmt)),
        FrameView::ReturnValue => raise(s, InterpreterErrorView::Return(value)),
        FrameView::Superclass { stmt } => if stmt < ast.stmts.len() {
            match ast.stmts[stmt as int] {
                Stmt::Class { name, .. } => match value {
                    Value::Class(parent) => declare_class(s, ast, stmt, Some(parent)),
                    _ => raise(s, failure(Some(name), "Superclass must be a class."@)),
                },
                _ => deliver(s, Value::Nil),
            }
        } else {
            deliver(s, Value::Nil)
        },
        FrameView::Assign { expr } => if expr < ast.exprs.len() {
            match ast.exprs[expr as int] {
                Expr::Assign { name, .. } => write_variable(s, name, value),
                _ => deliver(s, Value::Nil),
            }
        } else {
            deliver(s, Value::Nil)
        },
        FrameView::BinaryLeft { expr } => if expr < ast.exprs.len() {
            match ast.exprs[expr as int] {
                Expr::Binary { right, .. } => push(
                    s,
                    FrameView::BinaryRight { expr, left: value },
                    ControlView::Evaluate(right),
                ),
                _ => deliver(s, Value::Nil),
            }
        } else {
            deliver(s, Value::Nil)
        },
        FrameView::BinaryRight { expr, left } => if expr < ast.exprs.len() {
            match ast.exprs[expr as int] {
                Expr::Binary { operator, .. } => binary(s, operator, left, value),
                _ => deliver(s, Value::Nil),
            }
        } else {
            deliver(s, Value::Nil)
        },
        FrameView::Callee { expr } => if expr < ast.exprs.len() {
            match ast.exprs[expr as int] {
                Expr::Call { paren, arguments, .. } => if arguments.len() == 0 {
                    invoke(s, ast, paren, value, Seq::empty())
                } else {
                    push(
                        s,
                        FrameView::Argument { expr, callee: value, arguments: Seq::empty() },
                        ControlView::Evaluate(arguments[0]),
                    )
                },
                _ => deliver(s, Value::Nil),
            }
        } else {
            deliver(s, Value::Nil)
        },
        FrameView::Argument { expr, callee, arguments: evaluated } => if expr < ast.exprs.len() {
            match ast.exprs[expr as int] {
                Expr::Call { paren, arguments, .. } => if evaluated.len() + 1 < arguments.len() {
                    push(
                        s,
                        FrameView::Argument { expr, callee, arguments: evaluated.push(value) },
                        ControlView::Evaluate(arguments[evaluated.len() + 1 as int]),
                    )
                } else {
                    invoke(s, ast, paren, callee, evaluated.push(value))
                },
                _ => deliver(s, Value::Nil),
            }
        } else {
            deliver(s, Value::Nil)
        },
        FrameView::GetObject { expr } => if expr < ast.exprs.len() {
            match ast.exprs[expr as int] {
                Expr::Get { name, .. } => get_property(s, name, value),
                _ => deliver(s, Value::Nil),
            }
        } else {
            deliver(s, Value::Nil)
        },
        FrameView::LogicalLeft { expr } => if expr < ast.exprs.len() {
            match ast.exprs[expr as int] {
                Expr::Logical { operator, right, .. } => if (operator.token_type == TokenType::Or)
                    == truthy(value) {
                    deliver(s, value)
                } else {
                    proceed(s, ControlView::Evaluate(right))
                },
                _ => deliver(s, Value::Nil),
            }
        } else {
            deliver(s, Value::Nil)
        },
        FrameView::SetObject { expr } => if expr < ast.exprs.len() {
            match ast.exprs[expr as int] {
                Expr::SetProperty { name, value: written, .. } => match value {
                    Value::Instance(instance) => push(
                        s,
                        FrameView::SetValue { expr, instance },
                        ControlView::Evaluate(written),
                    ),
                    _ => raise(s, failure(Some(name), "Only instances have fields."@)),
                },
                _ => deliver(s, Value::Nil),
            }
        } else {
            deliver(s, Value::Nil)
        },
        FrameView::SetValue { expr, instance } => if expr < ast.exprs.len() && instance
            < s.instances.len() {
            match ast.exprs[expr as int] {
                Expr::SetProperty { name, .. } => deliver(
                    State {
                        instances: s.instances.update(
                            instance as int,
                            InstanceView {
                                class: s.instances[instance as int].class,
                                fields: s.instances[instance as int].fields.insert(name.lexeme@, value),
                            },
                        ),
                        ..s
                    },
                    value,
                ),
                _ => deliver(s, Value::Nil),
            }
        } else {
            deliver(s, Value::Nil)
        },
        FrameView::UnaryOperand { expr } => if expr < ast.exprs.len() {
            match ast.exprs[expr as int] {
                Expr::Unary { operator, .. } => unary(s, operator, value),
                _ => deliver(s, Value::Nil),
            }
        } else {
            deliver(s, Value::Nil)
        },
        FrameView::Call { previous, closure, is_initializer } => finish_call(
            s,
            previous,
            closure,
            is_initializer,
            Value::Nil,
        ),
        FrameView::Construct { instance } => deliver(s, Value::Instance(instance)),
    }
}

/// Take the interruption `error` one frame further. The frame on top is
/// dropped. Where it is the frame of a block or of a call, the scope that
/// was current when the block or the call was entered is current again. A
/// call frame ends a `return`: the call yields its value. A failure goes on
/// past it. With no frame left the run stops and the host is told why: a
/// failure has ended the program, or a `return` has left every call.
pub open spec fn unwind(s: State, error: InterpreterErrorView) -> (State, ActionView) {
    if s.frames.len() == 0 {
        (State { control: ControlView::Idle, ..s }, ActionView::Halt(error))
    } else {
        let rest = State { frames: s.frames.drop_last(), ..s };
        match s.frames.last() {
            FrameView::Call { previous, closure, is_initializer } => match error {
                InterpreterErrorView::Return(value) => finish_call(
                    rest,
                    previous,
                    closure,
                    is_initializer,
                    value,
                ),
                InterpreterErrorView::RuntimeError(_) => raise(
                    State { env: previous, ..rest },
                    error,
                ),
            },
            FrameView::EndBlock { previous } => raise(State { env: previous, ..rest }, error),
            _ => raise(rest, error),
        }
    }
}

/// One step of the machine.
///
/// While the host owes a number, only that number (or, for the clock, the
/// news that there is none) moves the machine: any other event leaves the
/// state as it is and repeats the request.
pub open spec fn step(s: State, ast: &Ast, event: Event) -> (State, ActionView) {
    let taken = State { control: ControlView::Idle, ..s };
    match s.control {
        ControlView::Idle => (s, ActionView::Done),
        ControlView::Execute(stmt) => execute(taken, ast, stmt),
        ControlView::Evaluate(expr) => evaluate(taken, ast, expr),
        ControlView::Deliver(value) => if s.frames.len() == 0 {
            (taken, ActionView::Done)
        } else {
            resume(State { frames: s.frames.drop_last(), ..taken }, ast, s.frames.last(), value)
        },
        ControlView::Unwinding(error) => unwind(taken, error),
        ControlView::Arithmetic { operator, left, right } => match event {
            Event::Number(bits) => deliver(s, Value::Number(bits)),
            _ => (s, ActionView::Arithmetic { operator, left, right }),
        },
        ControlView::Clock => match event {
            Event::Number(bits) => deliver(s, Value::Number(bits)),
            Event::Unavailable => raise(s, failure(None, "could not retrieve time."@)),
            Event::Tick => (s, ActionView::Clock),
        },
    }
}

/// The state after one step for each of `events`, in order.
pub open spec fn after(s: State, ast: &Ast, events: Seq<Event>) -> State
    decreases events.len(),
{
    if events.len() == 0 {
        s
    } else {
        step(after(s, ast, events.drop_last()), ast, events.last()).0
    }
}

/// Up to `limit` steps in a row, as long as the host is not needed: the
/// state and the action after the first step whose action is not
/// `Continue`, or after `limit` steps.
pub open spec fn run(s: State, ast: &Ast, limit: nat) -> (State, ActionView)
    decreases limit,
{
    if limit == 0 {
        (s, ActionView::Continue)
    } else {
        let (next, action) = step(s, ast, Event::Tick);
        if action is Continue {
            run(next, ast, (limit - 1) as nat)
        } else {
            (next, action)
        }
    }
}

/// The state in which the statements `program` are about to run, in the
/// global scope, with the scopes, classes and instances of `s`.
pub open spec fn load(s: State, program: Seq<usize>) -> State {
    State {
        program,
        env: 0,
        frames: seq![FrameView::Program { next: 0 }],
        control: ControlView::Deliver(Value::Nil),
        ..s
    }
}

} // verus!
