//! The interpreter: the machine of `crate::machine`, in executable form.
//!
//! A host drives it. It loads a program with `interpret`, then calls `step`
//! again and again, does what each returned action asks for, and stops at
//! `Action::Done` or `Action::Halt`.

use vstd::prelude::*;
use vstd::string::StringExecFns;

use crate::ast::{Ast, Expr, Stmt};
use crate::class::{class_views, instance_views, LoxClass, LoxInstance};
use crate::environment::{Environment, ScopeView};
use crate::error::{
    arity_error, undefined_property_error, undefined_variable_error, InterpreterError,
};
use crate::function::{Function, NativeFunction};
use crate::locals::Locals;
use crate::lox_type::{LoxType, Value};
use crate::machine;
use crate::machine::{
    ActionView, ArithmeticOperator, ControlView, Event, FrameView, PrintableView, State,
};
use crate::number::{less, less_equal, negate};
use crate::table::Table;
use crate::text::{join3, same_text};
use crate::token::Token;
use crate::token_type::TokenType;
use crate::validity::{lemma_load_wf, lemma_step_wf, state_wf};

verus! {

/// What the values of a sequence stand for.
pub open spec fn value_views(values: Seq<LoxType>) -> Seq<Value> {
    values.map_values(|value: LoxType| value@)
}

/// What is left to do once the work above a frame is done. Each variant is
/// described at `FrameView`.
#[derive(Debug)]
pub enum Frame {
    Sequence { stmt: usize, next: usize },
    Program { next: usize },
    EndBlock { previous: usize },
    Discard,
    Print,
    Define { stmt: usize },
    Branch { stmt: usize },
    Loop { stmt: usize },
    Again { stmt: usize },
    ReturnValue,
    Superclass { stmt: usize },
    Assign { expr: usize },
    BinaryLeft { expr: usize },
    BinaryRight { expr: usize, left: LoxType },
    Callee { expr: usize },
    Argument { expr: usize, callee: LoxType, arguments: Vec<LoxType> },
    GetObject { expr: usize },
    LogicalLeft { expr: usize },
    SetObject { expr: usize },
    SetValue { expr: usize, instance: usize },
    UnaryOperand { expr: usize },
    Call { previous: usize, closure: usize, is_initializer: bool },
    Construct { instance: usize },
}

impl View for Frame {
    type V = FrameView;

    open spec fn view(&self) -> FrameView {
        match self {
            Frame::Sequence { stmt, next } => FrameView::Sequence { stmt: *stmt, next: *next },
            Frame::Program { next } => FrameView::Program { next: *next },
            Frame::EndBlock { previous } => FrameView::EndBlock { previous: *previous },
            Frame::Discard => FrameView::Discard,
            Frame::Print => FrameView::Print,
            Frame::Define { stmt } => FrameView::Define { stmt: *stmt },
            Frame::Branch { stmt } => FrameView::Branch { stmt: *stmt },
            Frame::Loop { stmt } => FrameView::Loop { stmt: *stmt },
            Frame::Again { stmt } => FrameView::Again { stmt: *stmt },
            Frame::ReturnValue => FrameView::ReturnValue,
            Frame::Superclass { stmt } => FrameView::Superclass { stmt: *stmt },
            Frame::Assign { expr } => FrameView::Assign { expr: *expr },
            Frame::BinaryLeft { expr } => FrameView::BinaryLeft { expr: *expr },
            Frame::BinaryRight { expr, left } => FrameView::BinaryRight { expr: *expr, left: left@ },
            Frame::Callee { expr } => FrameView::Callee { expr: *expr },
            Frame::Argument { expr, callee, arguments } => FrameView::Argument {
                expr: *expr,
                callee: callee@,
                arguments: value_views(arguments@),
            },
            Frame::GetObject { expr } => FrameView::GetObject { expr: *expr },
            Frame::LogicalLeft { expr } => FrameView::LogicalLeft { expr: *expr },
            Frame::SetObject { expr } => FrameView::SetObject { expr: *expr },
            Frame::SetValue { expr, instance } => FrameView::SetValue {
                expr: *expr,
                instance: *instance,
            },
            Frame::UnaryOperand { expr } => FrameView::UnaryOperand { expr: *expr },
            Frame::Call { previous, closure, is_initializer } => FrameView::Call {
                previous: *previous,
                closure: *closure,
                is_initializer: *is_initializer,
            },
            Frame::Construct { instance } => FrameView::Construct { instance: *instance },
        }
    }
}

/// What to do next. Each variant is described at `ControlView`.
#[derive(Debug)]
pub enum Control {
    Idle,
    Execute(usize),
    Evaluate(usize),
    Deliver(LoxType),
    Unwinding(InterpreterError),
    Arithmetic { operator: ArithmeticOperator, left: u64, right: u64 },
    Clock,
}

impl View for Control {
    type V = ControlView;

    open spec fn view(&self) -> ControlView {
        match self {
            Control::Idle => ControlView::Idle,
            Control::Execute(stmt) => ControlView::Execute(*stmt),
            Control::Evaluate(expr) => ControlView::Evaluate(*expr),
            Control::Deliver(value) => ControlView::Deliver(value@),
            Control::Unwinding(error) => ControlView::Unwinding(error@),
            Control::Arithmetic { operator, left, right } => ControlView::Arithmetic {
                operator: *operator,
                left: *left,
                right: *right,
            },
            Control::Clock => ControlView::Clock,
        }
    }
}

/// What the host shall print: a text as it is, or a number, given as the
/// bit pattern of a double.
#[derive(Debug)]
pub enum Printable {
    Text(String),
    Number(u64),
}

impl View for Printable {
    type V = PrintableView;

    open spec fn view(&self) -> PrintableView {
        match self {
            Printable::Text(text) => PrintableView::Text(text@),
            Printable::Number(bits) => PrintableView::Number(*bits),
        }
    }
}

/// What the interpreter asks of the host. Each variant is described at
/// `ActionView`.
#[derive(Debug)]
pub enum Action {
    Continue,
    Print(Printable),
    Arithmetic { operator: ArithmeticOperator, left: u64, right: u64 },
    Clock,
    Done,
    Halt(InterpreterError),
}

impl View for Action {
    type V = ActionView;

    open spec fn view(&self) -> ActionView {
        match self {
            Action::Continue => ActionView::Continue,
            Action::Print(shown) => ActionView::Print(shown@),
            Action::Arithmetic { operator, left, right } => ActionView::Arithmetic {
                operator: *operator,
                left: *left,
                right: *right,
            },
            Action::Clock => ActionView::Clock,
            Action::Done => ActionView::Done,
            Action::Halt(error) => ActionView::Halt(error@),
        }
    }
}

/// The interpreter. Its view is the state of the machine.
pub struct Interpreter {
    environment: Environment,
    classes: Vec<LoxClass>,
    instances: Vec<LoxInstance>,
    locals: Locals,
    program: Vec<usize>,
    env: usize,
    frames: Vec<Frame>,
    control: Control,
}

impl View for Interpreter {
    type V = State;

    closed spec fn view(&self) -> State {
        State {
            scopes: self.environment@,
            classes: class_views(self.classes@),
            instances: instance_views(self.instances@),
            locals: self.locals@,
            program: self.program@,
            env: self.env,
            frames: self.frames@.map_values(|frame: Frame| frame@),
            control: self.control@,
        }
    }
}

/// The state of an interpreter that has run nothing: one scope, the global
/// one, which binds `clock` to the host's clock.
pub open spec fn initial() -> State {
    State {
        scopes: seq![
            ScopeView {
                values: Map::empty().insert(
                    "clock"@,
                    Value::Callable(Function::Native { arity: 0, body: NativeFunction::Clock }),
                ),
                enclosing: None,
            },
        ],
        classes: Seq::empty(),
        instances: Seq::empty(),
        locals: Map::empty(),
        program: Seq::empty(),
        env: 0,
        frames: Seq::empty(),
        control: ControlView::Idle,
    }
}

impl Interpreter {
    /// Every handle in the state names something that exists.
    pub open spec fn wf(&self) -> bool {
        state_wf(self@)
    }

    /// The tables are no longer than an index can say.
    pub proof fn lemma_fits(&self)
        ensures
            crate::validity::fits(self@),
    {
        self.environment.lemma_fits();
        assert(self@.classes.len() == self.classes.len());
        assert(self@.instances.len() == self.instances.len());
    }

    /// An interpreter that has run nothing yet.
    pub fn new() -> (interpreter: Self)
        ensures
            interpreter.wf(),
            interpreter@ == initial(),
    {
        let mut environment = Environment::new();
        environment.define(
            0,
            "clock",
            LoxType::Callable(Function::Native { arity: 0, body: NativeFunction::Clock }),
        );
        let interpreter = Interpreter {
            environment,
            classes: Vec::new(),
            instances: Vec::new(),
            locals: Locals::new(),
            program: Vec::new(),
            env: 0,
            frames: Vec::new(),
            control: Control::Idle,
        };
        proof {
            assert(interpreter@.scopes =~= initial().scopes);
            assert(interpreter@.classes =~= initial().classes);
            assert(interpreter@.instances =~= initial().instances);
            assert(interpreter@.frames =~= initial().frames);
            assert(interpreter@.program =~= initial().program);
        }
        interpreter
    }

    /// Loads the statements `statements` as the program to run, in the
    /// global scope. What an earlier program left to do is dropped; what it
    /// declared stays. The program runs as `step` is called.
    pub fn interpret(&mut self, statements: Vec<usize>)
        requires
            old(self).wf(),
        ensures
            final(self).wf(),
            final(self)@ == machine::load(old(self)@, statements@),
    {
        self.program = statements;
        self.env = 0;
        self.frames = Vec::new();
        self.frames.push(Frame::Program { next: 0 });
        self.control = Control::Deliver(LoxType::Nil);
        proof {
            assert(self@.frames =~= machine::load(old(self)@, statements@).frames);
            lemma_load_wf(old(self)@, statements@);
        }
    }

    /// Records that the variable that `name` refers to is declared `depth`
    /// scopes out from the scope in which the reference is evaluated.
    pub fn resolve(&mut self, name: &Token, depth: usize)
        ensures
            final(self)@ == (State {
                locals: old(self)@.locals.insert(name.key(), depth),
                ..old(self)@
            }),
            old(self).wf() ==> final(self).wf(),
    {
        self.locals.insert(name, depth);
    }

    /// The distance recorded for `name`, if one was.
    pub fn distance(&self, name: &Token) -> (distance: Option<usize>)
        ensures
            distance == if self@.locals.contains_key(name.key()) {
                Some(self@.locals[name.key()])
            } else {
                None
            },
    {
        self.locals.get(name)
    }

    /// The scope in which the program currently runs.
    pub fn scope(&self) -> (scope: usize)
        ensures
            scope == self@.env,
    {
        self.env
    }

    /// Whether nothing is left to run.
    pub fn is_idle(&self) -> (idle: bool)
        ensures
            idle == (self@.control is Idle),
    {
        match &self.control {
            Control::Idle => true,
            _ => false,
        }
    }
}


impl Interpreter {
    /// Goes on by handing `value` to the top frame.
    fn deliver(&mut self, value: LoxType) -> (action: Action)
        ensures
            (final(self)@, action@) == machine::deliver(old(self)@, value@),
    {
        self.control = Control::Deliver(value);
        Action::Continue
    }

    /// Goes on with `control`.
    fn proceed(&mut self, control: Control) -> (action: Action)
        ensures
            (final(self)@, action@) == machine::proceed(old(self)@, control@),
    {
        self.control = control;
        Action::Continue
    }

    /// Puts `frame` on the stack.
    fn push_frame(&mut self, frame: Frame)
        ensures
            final(self)@ == (State { frames: old(self)@.frames.push(frame@), ..old(self)@ }),
    {
        self.frames.push(frame);
        assert(self@.frames =~= old(self)@.frames.push(frame@));
    }

    /// Puts `frame` on the stack and goes on with `control`.
    fn push(&mut self, frame: Frame, control: Control) -> (action: Action)
        ensures
            (final(self)@, action@) == machine::push(old(self)@, frame@, control@),
    {
        self.push_frame(frame);
        self.control = control;
        Action::Continue
    }

    /// Interrupts what is going on: from here on `error` travels down the
    /// frames.
    fn raise(&mut self, error: InterpreterError) -> (action: Action)
        ensures
            (final(self)@, action@) == machine::raise(old(self)@, error@),
    {
        self.control = Control::Unwinding(error);
        Action::Continue
    }

    /// Asks the host for `left operator right`.
    fn request(&mut self, operator: ArithmeticOperator, left: u64, right: u64) -> (action: Action)
        ensures
            (final(self)@, action@) == machine::request(old(self)@, operator, left, right),
    {
        self.control = Control::Arithmetic { operator, left, right };
        Action::Arithmetic { operator, left, right }
    }

    /// Reads the variable `name`.
    fn lookup_variable(&mut self, name: &Token) -> (action: Action)
        requires
            old(self).wf(),
        ensures
            (final(self)@, action@) == machine::lookup_variable(old(self)@, *name),
    {
        let found = match self.locals.get(name) {
            Some(distance) => self.environment.get_at(self.env, distance, name.lexeme.as_str()),
            None => self.environment.get_at(0, 0, name.lexeme.as_str()),
        };
        match found {
            Some(value) => self.deliver(value),
            None => self.raise(undefined_variable_error(name)),
        }
    }

    /// Assigns `value` to the variable `name`.
    fn write_variable(&mut self, name: &Token, value: LoxType) -> (action: Action)
        requires
            old(self).wf(),
        ensures
            (final(self)@, action@) == machine::write_variable(old(self)@, *name, value@),
    {
        let assigned = match self.locals.get(name) {
            Some(distance) => self.environment.assign_at(
                self.env,
                distance,
                name.lexeme.as_str(),
                value.clone(),
            ),
            None => self.environment.assign_at(0, 0, name.lexeme.as_str(), value.clone()),
        };
        if assigned {
            self.deliver(value)
        } else {
            self.raise(undefined_variable_error(name))
        }
    }

    /// Evaluates `super.method`.
    fn super_method(&mut self, keyword: &Token, method: &Token) -> (action: Action)
        requires
            old(self).wf(),
        ensures
            (final(self)@, action@) == machine::super_method(old(self)@, *keyword, *method),
    {
        let distance = match self.locals.get(keyword) {
            Some(distance) => distance,
            None => {
                return self.raise(undefined_variable_error(keyword));
            },
        };
        if distance == 0 {
            return self.raise(undefined_variable_error(keyword));
        }
        let superclass = self.environment.get_at(self.env, distance, "super");
        let object = self.environment.get_at(self.env, distance - 1, "this");
        proof {
            crate::validity::lemma_lookup_at_ok(
                self@,
                self.env as int,
                distance as nat,
                "super"@,
            );
            crate::validity::lemma_lookup_at_ok(
                self@,
                self.env as int,
                (distance - 1) as nat,
                "this"@,
            );
        }
        match (superclass, object) {
            (Some(LoxType::Class(parent)), Some(object)) => {
                proof {
                    crate::validity::lemma_find_method_ok(self@, parent as int, method.lexeme@);
                }
                match LoxClass::find_method(&self.classes, parent, method.lexeme.as_str()) {
                    Some(found) => {
                        let bound = found.bind(&mut self.environment, object);
                        self.deliver(LoxType::Callable(bound))
                    },
                    None => self.raise(undefined_property_error(method)),
                }
            },
            _ => self.raise(undefined_variable_error(keyword)),
        }
    }

    /// Reads property `name` of `object`.
    fn get_property(&mut self, name: &Token, object: LoxType) -> (action: Action)
        requires
            old(self).wf(),
            crate::validity::value_ok(object@, crate::validity::sizes(old(self)@)),
        ensures
            (final(self)@, action@) == machine::get_property(old(self)@, *name, object@),
    {
        match object {
            LoxType::Instance(instance) => {
                proof {
                    crate::validity::lemma_find_method_ok(
                        self@,
                        self@.instances[instance as int].class as int,
                        name.lexeme@,
                    );
                    assert(self@.instances[instance as int] == self.instances[instance as int]@);
                }
                let property = self.instances[instance].get(
                    name,
                    &object,
                    &self.classes,
                    &mut self.environment,
                );
                match property {
                    Ok(value) => self.deliver(value),
                    Err(error) => self.raise(error),
                }
            },
            _ => self.raise(
                InterpreterError::runtime_error(Some(name.clone()), "Only instances have properties."),
            ),
        }
    }

    /// Applies a binary operator.
    fn binary(&mut self, operator: &Token, left: LoxType, right: LoxType) -> (action: Action)
        ensures
            (final(self)@, action@) == machine::binary(old(self)@, *operator, left@, right@),
    {
        let kind = operator.token_type;
        if kind == TokenType::BangEqual {
            let same = left == right;
            self.deliver(LoxType::Boolean(!same))
        } else if kind == TokenType::EqualEqual {
            let same = left == right;
            self.deliver(LoxType::Boolean(same))
        } else if kind == TokenType::Plus {
            match (left, right) {
                (LoxType::Number(a), LoxType::Number(b)) => self.request(
                    ArithmeticOperator::Add,
                    a,
                    b,
                ),
                (LoxType::String(a), LoxType::String(b)) => {
                    let mut text = a;
                    text.append(b.as_str());
                    self.deliver(LoxType::String(text))
                },
                _ => self.raise(
                    InterpreterError::runtime_error(
                        Some(operator.clone()),
                        "Operands must be two numbers or two strings.",
                    ),
                ),
            }
        } else {
            match Self::check_number_operands(operator, &left, &right) {
                Ok((a, b)) => {
                    if kind == TokenType::Minus {
                        self.request(ArithmeticOperator::Subtract, a, b)
                    } else if kind == TokenType::Star {
                        self.request(ArithmeticOperator::Multiply, a, b)
                    } else if kind == TokenType::Slash {
                        self.request(ArithmeticOperator::Divide, a, b)
                    } else if kind == TokenType::Greater {
                        self.deliver(LoxType::Boolean(less(b, a)))
                    } else if kind == TokenType::GreaterEqual {
                        self.deliver(LoxType::Boolean(less_equal(b, a)))
                    } else if kind == TokenType::Less {
                        self.deliver(LoxType::Boolean(less(a, b)))
                    } else if kind == TokenType::LessEqual {
                        self.deliver(LoxType::Boolean(less_equal(a, b)))
                    } else {
                        self.deliver(LoxType::Nil)
                    }
                },
                Err(error) => self.raise(error),
            }
        }
    }

    /// The number that `operand` is, or the failure of the unary operator
    /// `token` to apply to anything else.
    fn check_number_operand(
        token: &Token,
        operand: &LoxType,
    ) -> (checked: Result<u64, InterpreterError>)
        ensures
            match operand@ {
                Value::Number(bits) => checked matches Ok(number) && number == bits,
                _ => checked matches Err(error) && error@ == crate::error::failure(
                    Some(*token),
                    "Operand must be a number."@,
                ),
            },
    {
        match operand {
            LoxType::Number(bits) => Ok(*bits),
            _ => Err(
                InterpreterError::runtime_error(Some(token.clone()), "Operand must be a number."),
            ),
        }
    }

    /// The numbers that `left` and `right` are, or the failure of the
    /// binary operator `token` to apply to anything else.
    fn check_number_operands(token: &Token, left: &LoxType, right: &LoxType) -> (checked: Result<
        (u64, u64),
        InterpreterError,
    >)
        ensures
            match (left@, right@) {
                (Value::Number(a), Value::Number(b)) => checked matches Ok(numbers) && numbers == (
                    a,
                    b,
                ),
                _ => checked matches Err(error) && error@ == crate::error::failure(
                    Some(*token),
                    "Operands must be numbers."@,
                ),
            },
    {
        match (left, right) {
            (LoxType::Number(a), LoxType::Number(b)) => Ok((*a, *b)),
            _ => Err(
                InterpreterError::runtime_error(Some(token.clone()), "Operands must be numbers."),
            ),
        }
    }

    /// Applies a unary operator.
    fn unary(&mut self, operator: &Token, operand: LoxType) -> (action: Action)
        ensures
            (final(self)@, action@) == machine::unary(old(self)@, *operator, operand@),
    {
        if operator.token_type == TokenType::Bang {
            let truthy = operand.is_truthy();
            self.deliver(LoxType::Boolean(!truthy))
        } else {
            match Self::check_number_operand(operator, &operand) {
                Ok(bits) => self.deliver(LoxType::Number(negate(bits))),
                Err(error) => self.raise(error),
            }
        }
    }

    /// Sets the statements of block or function `stmt` to run in scope
    /// `env`, above a frame that remembers the scope that is current now.
    /// That scope is current again as soon as the frame is dropped, on
    /// every way out of the statements: when they are done, when one of them
    /// fails, and when one of them returns (`laws::lemma_block_restores_scope`).
    pub fn execute_block(&mut self, stmt: usize, env: usize) -> (action: Action)
        requires
            old(self).wf(),
            env < old(self)@.scopes.len(),
        ensures
            final(self).wf(),
            (final(self)@, action@) == machine::enter_block(old(self)@, stmt, env),
    {
        proof {
            crate::validity::lemma_enter_block_wf(self@, stmt, env);
        }
        self.enter_block(stmt, env)
    }

    /// Sets the statements of block or function `stmt` to run in scope
    /// `env`.
    fn enter_block(&mut self, stmt: usize, env: usize) -> (action: Action)
        ensures
            (final(self)@, action@) == machine::enter_block(old(self)@, stmt, env),
    {
        self.push_frame(Frame::EndBlock { previous: self.env });
        self.push_frame(Frame::Sequence { stmt, next: 0 });
        self.env = env;
        self.control = Control::Deliver(LoxType::Nil);
        Action::Continue
    }

    /// Leaves a call with `result`.
    fn finish_call(
        &mut self,
        previous: usize,
        closure: usize,
        is_initializer: bool,
        result: LoxType,
    ) -> (action: Action)
        requires
            old(self).wf(),
            closure < old(self)@.scopes.len(),
        ensures
            (final(self)@, action@) == machine::finish_call(
                old(self)@,
                previous,
                closure,
                is_initializer,
                result@,
            ),
    {
        if is_initializer {
            let this = self.environment.get_at(closure, 0, "this");
            self.env = previous;
            match this {
                Some(instance) => self.deliver(instance),
                None => self.raise(
                    InterpreterError::runtime_error(None, "expect initializer to return this"),
                ),
            }
        } else {
            self.env = previous;
            self.deliver(result)
        }
    }
}


/// The parameters of function declaration `stmt`, if it is one.
fn parameters_of(ast: &Ast, stmt: usize) -> (params: Option<&Vec<Token>>)
    ensures
        match params {
            Some(params) => params@ == machine::parameters(ast, stmt),
            None => machine::parameters(ast, stmt) == Seq::<Token>::empty(),
        },
{
    if stmt < ast.stmts.len() {
        match &ast.stmts[stmt] {
            Stmt::Function { params, .. } => Some(params),
            _ => None,
        }
    } else {
        None
    }
}

impl Function {
    /// Enters the function with `arguments`, whose number the caller has
    /// checked against `arity`. For a function of the host, the host is
    /// asked. For a declared function, one new scope is made inside the
    /// scope that the function captured, each parameter is bound in it to
    /// its argument, and the body is set to run in it as a block, above a
    /// call frame. A `return` stops at that frame and never leaves the
    /// call; a failure passes it unchanged; and on every way out the scope
    /// that the call was made from is current again
    /// (`laws::lemma_call_restores_scope`).
    pub fn call(
        &self,
        interpreter: &mut Interpreter,
        ast: &Ast,
        arguments: Vec<LoxType>,
    ) -> (action: Action)
        requires
            old(interpreter).wf(),
            crate::validity::function_ok(*self, crate::validity::sizes(old(interpreter)@)),
            crate::validity::values_ok(
                value_views(arguments@),
                crate::validity::sizes(old(interpreter)@),
            ),
        ensures
            final(interpreter).wf(),
            (final(interpreter)@, action@) == machine::call(
                old(interpreter)@,
                ast,
                *self,
                value_views(arguments@),
            ),
    {
        let action = self.enter(interpreter, ast, arguments);
        proof {
            interpreter.lemma_fits();
            crate::validity::lemma_call_wf(
                old(interpreter)@,
                ast,
                *self,
                value_views(arguments@),
            );
        }
        action
    }

    /// Sets the function to run with `arguments`.
    pub(crate) fn enter(
        &self,
        interpreter: &mut Interpreter,
        ast: &Ast,
        arguments: Vec<LoxType>,
    ) -> (action: Action)
        requires
            old(interpreter).wf(),
            crate::validity::function_ok(*self, crate::validity::sizes(old(interpreter)@)),
        ensures
            (final(interpreter)@, action@) == machine::call(
                old(interpreter)@,
                ast,
                *self,
                value_views(arguments@),
            ),
    {
        match self {
            Function::Native { body, .. } => match body {
                NativeFunction::Clock => {
                    interpreter.control = Control::Clock;
                    Action::Clock
                },
            },
            Function::User { declaration, closure, is_initializer } => {
                let ghost before = interpreter@;
                let ghost given = value_views(arguments@);
                let scope = interpreter.environment.with_enclosing(*closure);
                match parameters_of(ast, *declaration) {
                    Some(params) => {
                        let mut i: usize = 0;
                        while i < arguments.len()
                            invariant
                                i <= arguments.len(),
                                params@ == machine::parameters(ast, *declaration),
                                given == value_views(arguments@),
                                interpreter.environment.wf(),
                                scope == before.scopes.len(),
                                interpreter@ == (State {
                                    scopes: before.scopes.push(
                                        ScopeView {
                                            values: machine::arguments_map(params@, given, i as nat),
                                            enclosing: Some(*closure),
                                        },
                                    ),
                                    ..before
                                }),
                            decreases arguments.len() - i,
                        {
                            if i < params.len() {
                                interpreter.environment.define(
                                    scope,
                                    params[i].lexeme.as_str(),
                                    arguments[i].clone(),
                                );
                            }
                            i = i + 1;
                            assert(interpreter@.scopes =~= before.scopes.push(
                                ScopeView {
                                    values: machine::arguments_map(params@, given, i as nat),
                                    enclosing: Some(*closure),
                                },
                            ));
                        }
                    },
                    None => {
                        proof {
                            lemma_no_parameters(given, given.len());
                        }
                    },
                }
                let previous = interpreter.env;
                interpreter.push_frame(
                    Frame::Call { previous, closure: *closure, is_initializer: *is_initializer },
                );
                interpreter.enter_block(*declaration, scope)
            },
        }
    }
}

/// Without parameters no argument is bound.
proof fn lemma_no_parameters(arguments: Seq<Value>, count: nat)
    ensures
        machine::arguments_map(Seq::empty(), arguments, count) == Map::<Seq<char>, Value>::empty(),
    decreases count,
{
    if count > 0 {
        lemma_no_parameters(arguments, (count - 1) as nat);
    }
}

impl Interpreter {
    /// Calls `callee` with `arguments` at the closing parenthesis `paren`.
    fn invoke(
        &mut self,
        ast: &Ast,
        paren: &Token,
        callee: LoxType,
        arguments: Vec<LoxType>,
    ) -> (action: Action)
        requires
            old(self).wf(),
            crate::validity::value_ok(callee@, crate::validity::sizes(old(self)@)),
        ensures
            (final(self)@, action@) == machine::invoke(
                old(self)@,
                ast,
                *paren,
                callee@,
                value_views(arguments@),
            ),
    {
        match callee {
            LoxType::Callable(function) => {
                let expected = function.arity(ast);
                if arguments.len() == expected {
                    function.enter(self, ast, arguments)
                } else {
                    self.raise(arity_error(paren, expected, arguments.len()))
                }
            },
            LoxType::Class(class) => {
                let instance = self.instances.len();
                self.instances.push(LoxInstance::new(class));
                assert(self@.instances =~= old(self)@.instances.push(
                    crate::class::InstanceView { class, fields: Map::empty() },
                ));
                proof {
                    crate::validity::lemma_find_method_ok(old(self)@, class as int, "init"@);
                }
                match LoxClass::find_method(&self.classes, class, "init") {
                    Some(initializer) => {
                        let expected = initializer.arity(ast);
                        if arguments.len() == expected {
                            let bound = initializer.bind(
                                &mut self.environment,
                                LoxType::Instance(instance),
                            );
                            self.push_frame(Frame::Construct { instance });
                            proof {
                                self.lemma_fits();
                                crate::validity::lemma_grow(old(self)@, self@);
                            }
                            bound.enter(self, ast, arguments)
                        } else {
                            self.raise(arity_error(paren, expected, arguments.len()))
                        }
                    },
                    None => self.deliver(LoxType::Instance(instance)),
                }
            },
            _ => self.raise(
                InterpreterError::runtime_error(
                    Some(paren.clone()),
                    "Can only call functions and classes.",
                ),
            ),
        }
    }

    /// Makes the class that statement `stmt` declares.
    fn declare_class(
        &mut self,
        ast: &Ast,
        stmt: usize,
        superclass: Option<usize>,
    ) -> (action: Action)
        requires
            old(self).wf(),
        ensures
            (final(self)@, action@) == machine::declare_class(old(self)@, ast, stmt, superclass),
    {
        if stmt >= ast.stmts.len() {
            return self.deliver(LoxType::Nil);
        }
        match &ast.stmts[stmt] {
            Stmt::Class { name, methods, .. } => {
                let ghost before = self@;
                let closure = match superclass {
                    Some(parent) => {
                        let scope = self.environment.with_enclosing(self.env);
                        self.environment.define(scope, "super", LoxType::Class(parent));
                        scope
                    },
                    None => self.env,
                };
                let ghost scopes = self@.scopes;
                assert(scopes =~= match superclass {
                    Some(parent) => before.scopes.push(
                        ScopeView {
                            values: Map::empty().insert("super"@, Value::Class(parent)),
                            enclosing: Some(before.env),
                        },
                    ),
                    None => before.scopes,
                });
                let mut table: Table<Function> = Table::new();
                let mut i: usize = 0;
                while i < methods.len()
                    invariant
                        i <= methods.len(),
                        table@ == machine::method_table(ast, methods@, closure, i as nat),
                    decreases methods.len() - i,
                {
                    let method = methods[i];
                    if method < ast.stmts.len() {
                        match &ast.stmts[method] {
                            Stmt::Function { name: method_name, .. } => {
                                let is_initializer = same_text(method_name.lexeme.as_str(), "init");
                                table.insert(
                                    method_name.lexeme.clone(),
                                    Function::User { declaration: method, closure, is_initializer },
                                );
                            },
                            _ => {},
                        }
                    }
                    i = i + 1;
                }
                let class = self.classes.len();
                self.classes.push(LoxClass::new(name.lexeme.as_str(), superclass, table));
                assert(self@.classes =~= before.classes.push(
                    crate::class::ClassView {
                        name: name.lexeme@,
                        superclass,
                        methods: machine::method_table(ast, methods@, closure, methods.len() as nat),
                    },
                ));
                self.environment.define(self.env, name.lexeme.as_str(), LoxType::Class(class));
                self.deliver(LoxType::Nil)
            },
            _ => self.deliver(LoxType::Nil),
        }
    }

    /// How `value` is shown.
    fn printable(&self, ast: &Ast, value: LoxType) -> (shown: Printable)
        ensures
            shown@ == machine::printable(self@, ast, value@),
    {
        match value {
            LoxType::Boolean(b) => Printable::Text(
                String::from_str(
                    if b {
                        "true"
                    } else {
                        "false"
                    },
                ),
            ),
            LoxType::Nil => Printable::Text(String::from_str("nil")),
            LoxType::Number(bits) => Printable::Number(bits),
            LoxType::String(text) => Printable::Text(text),
            LoxType::Callable(Function::Native { .. }) => Printable::Text(
                String::from_str("<native func>"),
            ),
            LoxType::Callable(Function::User { declaration, .. }) => {
                let name = if declaration < ast.stmts.len() {
                    match &ast.stmts[declaration] {
                        Stmt::Function { name, .. } => name.lexeme.clone(),
                        _ => String::new(),
                    }
                } else {
                    String::new()
                };
                Printable::Text(join3("<fn ", name.as_str(), ">"))
            },
            LoxType::Class(class) => Printable::Text(
                join3("<class ", self.class_name(class).as_str(), ">"),
            ),
            LoxType::Instance(instance) => {
                let name = if instance < self.instances.len() {
                    assert(self@.instances[instance as int] == self.instances[instance as int]@);
                    self.class_name(self.instances[instance].class())
                } else {
                    String::new()
                };
                Printable::Text(join3("<instance ", name.as_str(), ">"))
            },
        }
    }

    /// The name of class `class`.
    fn class_name(&self, class: usize) -> (name: String)
        ensures
            name@ == machine::class_name(self@, class),
    {
        if class < self.classes.len() {
            assert(self@.classes[class as int] == self.classes[class as int]@);
            self.classes[class].name().clone()
        } else {
            String::new()
        }
    }
}


/// Whether expression `expr` is the literal nil.
pub fn is_nil_literal(ast: &Ast, expr: usize) -> (nil: bool)
    ensures
        nil == machine::is_nil_literal(ast, expr),
{
    if expr < ast.exprs.len() {
        match &ast.exprs[expr] {
            Expr::Literal(value) => value.is_nil(),
            _ => false,
        }
    } else {
        false
    }
}

impl Interpreter {
    /// Starts on statement `stmt`.
    fn execute(&mut self, ast: &Ast, stmt: usize) -> (action: Action)
        requires
            old(self).wf(),
        ensures
            (final(self)@, action@) == machine::execute(old(self)@, ast, stmt),
    {
        if stmt >= ast.stmts.len() {
            return self.deliver(LoxType::Nil);
        }
        match &ast.stmts[stmt] {
            Stmt::Block(_) => {
                let scope = self.environment.with_enclosing(self.env);
                self.enter_block(stmt, scope)
            },
            Stmt::Class { superclass, .. } => match superclass {
                Some(expr) => self.push(Frame::Superclass { stmt }, Control::Evaluate(*expr)),
                None => self.declare_class(ast, stmt, None),
            },
            Stmt::Expression(expr) => self.push(Frame::Discard, Control::Evaluate(*expr)),
            Stmt::Function { name, .. } => {
                let function = Function::User {
                    declaration: stmt,
                    closure: self.env,
                    is_initializer: false,
                };
                self.environment.define(self.env, name.lexeme.as_str(), LoxType::Callable(function));
                self.deliver(LoxType::Nil)
            },
            Stmt::If { condition, .. } => self.push(
                Frame::Branch { stmt },
                Control::Evaluate(*condition),
            ),
            Stmt::Print(expr) => self.push(Frame::Print, Control::Evaluate(*expr)),
            Stmt::Return { value, .. } => {
                if is_nil_literal(ast, *value) {
                    self.raise(InterpreterError::Return(LoxType::Nil))
                } else {
                    self.push(Frame::ReturnValue, Control::Evaluate(*value))
                }
            },
            Stmt::Var { initializer, .. } => self.push(
                Frame::Define { stmt },
                Control::Evaluate(*initializer),
            ),
            Stmt::While { condition, .. } => self.push(
                Frame::Loop { stmt },
                Control::Evaluate(*condition),
            ),
        }
    }

    /// Starts on expression `expr`.
    fn evaluate(&mut self, ast: &Ast, expr: usize) -> (action: Action)
        requires
            old(self).wf(),
        ensures
            (final(self)@, action@) == machine::evaluate(old(self)@, ast, expr),
    {
        if expr >= ast.exprs.len() {
            return self.deliver(LoxType::Nil);
        }
        match &ast.exprs[expr] {
            Expr::Assign { value, .. } => self.push(
                Frame::Assign { expr },
                Control::Evaluate(*value),
            ),
            Expr::Binary { left, .. } => self.push(
                Frame::BinaryLeft { expr },
                Control::Evaluate(*left),
            ),
            Expr::Call { callee, .. } => self.push(
                Frame::Callee { expr },
                Control::Evaluate(*callee),
            ),
            Expr::Get { object, .. } => self.push(
                Frame::GetObject { expr },
                Control::Evaluate(*object),
            ),
            Expr::Grouping(inner) => self.proceed(Control::Evaluate(*inner)),
            Expr::Literal(value) => match value {
                LoxType::Boolean(_) | LoxType::Nil | LoxType::Number(_) | LoxType::String(_) => {
                    self.deliver(value.clone())
                },
                _ => self.deliver(LoxType::Nil),
            },
            Expr::Logical { left, .. } => self.push(
                Frame::LogicalLeft { expr },
                Control::Evaluate(*left),
            ),
            Expr::SetProperty { object, .. } => self.push(
                Frame::SetObject { expr },
                Control::Evaluate(*object),
            ),
            Expr::Super { keyword, method } => self.super_method(keyword, method),
            Expr::This(keyword) => self.lookup_variable(keyword),
            Expr::Unary { right, .. } => self.push(
                Frame::UnaryOperand { expr },
                Control::Evaluate(*right),
            ),
            Expr::Variable(name) => self.lookup_variable(name),
        }
    }

    /// Goes on with the statements `body` of block or function `stmt` from
    /// `next`.
    fn sequence(&mut self, body: &Vec<usize>, stmt: usize, next: usize) -> (action: Action)
        ensures
            (final(self)@, action@) == machine::advance(
                old(self)@,
                body@,
                next,
                FrameView::Sequence { stmt, next: (next + 1) as usize },
            ),
    {
        if next < body.len() {
            self.push(Frame::Sequence { stmt, next: next + 1 }, Control::Execute(body[next]))
        } else {
            self.deliver(LoxType::Nil)
        }
    }

    /// Hands `value` to `frame`, which has been taken off the stack.
    fn resume(&mut self, ast: &Ast, frame: Frame, value: LoxType) -> (action: Action)
        requires
            old(self).wf(),
            crate::validity::frame_ok(frame@, crate::validity::sizes(old(self)@)),
            crate::validity::value_ok(value@, crate::validity::sizes(old(self)@)),
        ensures
            (final(self)@, action@) == machine::resume(old(self)@, ast, frame@, value@),
    {
        match frame {
            Frame::Sequence { stmt, next } => {
                if stmt < ast.stmts.len() {
                    match &ast.stmts[stmt] {
                        Stmt::Block(body) => self.sequence(body, stmt, next),
                        Stmt::Function { body, .. } => self.sequence(body, stmt, next),
                        _ => self.deliver(LoxType::Nil),
                    }
                } else {
                    self.deliver(LoxType::Nil)
                }
            },
            Frame::Program { next } => {
                if next < self.program.len() {
                    let stmt = self.program[next];
                    self.push(Frame::Program { next: next + 1 }, Control::Execute(stmt))
                } else {
                    self.deliver(LoxType::Nil)
                }
            },
            Frame::EndBlock { previous } => {
                self.env = previous;
                self.deliver(LoxType::Nil)
            },
            Frame::Discard => self.deliver(LoxType::Nil),
            Frame::Print => {
                let shown = self.printable(ast, value);
                self.control = Control::Deliver(LoxType::Nil);
                Action::Print(shown)
            },
            Frame::Define { stmt } => {
                if stmt < ast.stmts.len() {
                    match &ast.stmts[stmt] {
                        Stmt::Var { name, .. } => {
                            self.environment.define(self.env, name.lexeme.as_str(), value);
                            self.deliver(LoxType::Nil)
                        },
                        _ => self.deliver(LoxType::Nil),
                    }
                } else {
                    self.deliver(LoxType::Nil)
                }
            },
            Frame::Branch { stmt } => {
                if stmt < ast.stmts.len() {
                    match &ast.stmts[stmt] {
                        Stmt::If { then_branch, opt_else_branch, .. } => {
                            if value.is_truthy() {
                                self.proceed(Control::Execute(*then_branch))
                            } else {
                                match opt_else_branch {
                                    Some(else_branch) => self.proceed(
                                        Control::Execute(*else_branch),
                                    ),
                                    None => self.deliver(LoxType::Nil),
                                }
                            }
                        },
                        _ => self.deliver(LoxType::Nil),
                    }
                } else {
                    self.deliver(LoxType::Nil)
                }
            },
            Frame::Loop { stmt } => {
                if stmt < ast.stmts.len() {
                    match &ast.stmts[stmt] {
                        Stmt::While { body, .. } => {
                            if value.is_truthy() {
                                self.push(Frame::Again { stmt }, Control::Execute(*body))
                            } else {
                                self.deliver(LoxType::Nil)
                            }
                        },
                        _ => self.deliver(LoxType::Nil),
                    }
                } else {
                    self.deliver(LoxType::Nil)
                }
            },
            Frame::Again { stmt } => self.proceed(Control::Execute(stmt)),
            Frame::ReturnValue => self.raise(InterpreterError::Return(value)),
            Frame::Superclass { stmt } => {
                if stmt < ast.stmts.len() {
                    match &ast.stmts[stmt] {
                        Stmt::Class { name, .. } => match value {
                            LoxType::Class(parent) => self.declare_class(ast, stmt, Some(parent)),
                            _ => self.raise(
                                InterpreterError::runtime_error(
                                    Some(name.clone()),
                                    "Superclass must be a class.",
                                ),
                            ),
                        },
                        _ => self.deliver(LoxType::Nil),
                    }
                } else {
                    self.deliver(LoxType::Nil)
                }
            },
            Frame::Assign { expr } => {
                if expr < ast.exprs.len() {
                    match &ast.exprs[expr] {
                        Expr::Assign { name, .. } => self.write_variable(name, value),
                        _ => self.deliver(LoxType::Nil),
                    }
                } else {
                    self.deliver(LoxType::Nil)
                }
            },
            Frame::BinaryLeft { expr } => {
                if expr < ast.exprs.len() {
                    match &ast.exprs[expr] {
                        Expr::Binary { right, .. } => self.push(
                            Frame::BinaryRight { expr, left: value },
                            Control::Evaluate(*right),
                        ),
                        _ => self.deliver(LoxType::Nil),
                    }
                } else {
                    self.deliver(LoxType::Nil)
                }
            },
            Frame::BinaryRight { expr, left } => {
                if expr < ast.exprs.len() {
                    match &ast.exprs[expr] {
                        Expr::Binary { operator, .. } => self.binary(operator, left, value),
                        _ => self.deliver(LoxType::Nil),
                    }
                } else {
                    self.deliver(LoxType::Nil)
                }
            },
            Frame::Callee { expr } => {
                if expr < ast.exprs.len() {
                    match &ast.exprs[expr] {
                        Expr::Call { paren, arguments, .. } => {
                            if arguments.len() == 0 {
                                let none: Vec<LoxType> = Vec::new();
                                assert(value_views(none@) =~= Seq::empty());
                                self.invoke(ast, paren, value, none)
                            } else {
                                let none: Vec<LoxType> = Vec::new();
                                assert(value_views(none@) =~= Seq::empty());
                                self.push(
                                    Frame::Argument { expr, callee: value, arguments: none },
                                    Control::Evaluate(arguments[0]),
                                )
                            }
                        },
                        _ => self.deliver(LoxType::Nil),
                    }
                } else {
                    self.deliver(LoxType::Nil)
                }
            },
            Frame::Argument { expr, callee, arguments: evaluated } => {
                if expr < ast.exprs.len() {
                    match &ast.exprs[expr] {
                        Expr::Call { paren, arguments, .. } => {
                            let mut evaluated = evaluated;
                            let ghost before = value_views(evaluated@);
                            evaluated.push(value);
                            assert(value_views(evaluated@) =~= before.push(value@));
                            if evaluated.len() < arguments.len() {
                                let next = arguments[evaluated.len()];
                                self.push(
                                    Frame::Argument { expr, callee, arguments: evaluated },
                                    Control::Evaluate(next),
                                )
                            } else {
                                self.invoke(ast, paren, callee, evaluated)
                            }
                        },
                        _ => self.deliver(LoxType::Nil),
                    }
                } else {
                    self.deliver(LoxType::Nil)
                }
            },
            Frame::GetObject { expr } => {
                if expr < ast.exprs.len() {
                    match &ast.exprs[expr] {
                        Expr::Get { name, .. } => self.get_property(name, value),
                        _ => self.deliver(LoxType::Nil),
                    }
                } else {
                    self.deliver(LoxType::Nil)
                }
            },
            Frame::LogicalLeft { expr } => {
                if expr < ast.exprs.len() {
                    match &ast.exprs[expr] {
                        Expr::Logical { operator, right, .. } => {
                            let is_or = operator.token_type == TokenType::Or;
                            if is_or == value.is_truthy() {
                                self.deliver(value)
                            } else {
                                self.proceed(Control::Evaluate(*right))
                            }
                        },
                        _ => self.deliver(LoxType::Nil),
                    }
                } else {
                    self.deliver(LoxType::Nil)
                }
            },
            Frame::SetObject { expr } => {
                if expr < ast.exprs.len() {
                    match &ast.exprs[expr] {
                        Expr::SetProperty { name, value: written, .. } => match value {
                            LoxType::Instance(instance) => self.push(
                                Frame::SetValue { expr, instance },
                                Control::Evaluate(*written),
                            ),
                            _ => self.raise(
                                InterpreterError::runtime_error(
                                    Some(name.clone()),
                                    "Only instances have fields.",
                                ),
                            ),
                        },
                        _ => self.deliver(LoxType::Nil),
                    }
                } else {
                    self.deliver(LoxType::Nil)
                }
            },
            Frame::SetValue { expr, instance } => {
                if expr < ast.exprs.len() && instance < self.instances.len() {
                    match &ast.exprs[expr] {
                        Expr::SetProperty { name, .. } => {
                            let ghost before = self@.instances;
                            assert(before[instance as int] == self.instances[instance as int]@);
                            self.instances[instance].set(name, value.clone());
                            assert(self@.instances =~= before.update(
                                instance as int,
                                crate::class::InstanceView {
                                    class: before[instance as int].class,
                                    fields: before[instance as int].fields.insert(
                                        name.lexeme@,
                                        value@,
                                    ),
                                },
                            ));
                            self.deliver(value)
                        },
                        _ => self.deliver(LoxType::Nil),
                    }
                } else {
                    self.deliver(LoxType::Nil)
                }
            },
            Frame::UnaryOperand { expr } => {
                if expr < ast.exprs.len() {
                    match &ast.exprs[expr] {
                        Expr::Unary { operator, .. } => self.unary(operator, value),
                        _ => self.deliver(LoxType::Nil),
                    }
                } else {
                    self.deliver(LoxType::Nil)
                }
            },
            Frame::Call { previous, closure, is_initializer } => self.finish_call(
                previous,
                closure,
                is_initializer,
                LoxType::Nil,
            ),
            Frame::Construct { instance } => self.deliver(LoxType::Instance(instance)),
        }
    }

    /// Takes the top frame off the stack.
    fn pop_frame(&mut self) -> (frame: Option<Frame>)
        ensures
            match frame {
                Some(frame) => old(self)@.frames.len() > 0 && frame@ == old(self)@.frames.last()
                    && final(self)@ == (State {
                    frames: old(self)@.frames.drop_last(),
                    ..old(self)@
                }),
                None => old(self)@.frames.len() == 0 && final(self)@ == old(self)@,
            },
    {
        let frame = self.frames.pop();
        assert(frame is Some ==> self@.frames =~= old(self)@.frames.drop_last());
        frame
    }

    /// Takes the interruption `error` one frame further.
    fn unwind(&mut self, error: InterpreterError) -> (action: Action)
        requires
            old(self).wf(),
        ensures
            (final(self)@, action@) == machine::unwind(old(self)@, error@),
    {
        match self.pop_frame() {
            None => {
                self.control = Control::Idle;
                Action::Halt(error)
            },
            Some(frame) => {
                assert(crate::validity::frame_ok(
                    old(self)@.frames.last(),
                    crate::validity::sizes(old(self)@),
                ));
                match frame {
                    Frame::Call { previous, closure, is_initializer } => match error {
                        InterpreterError::Return(value) => self.finish_call(
                            previous,
                            closure,
                            is_initializer,
                            value,
                        ),
                        InterpreterError::RuntimeError(_) => {
                            self.env = previous;
                            self.raise(error)
                        },
                    },
                    Frame::EndBlock { previous } => {
                        self.env = previous;
                        self.raise(error)
                    },
                    _ => self.raise(error),
                }
            },
        }
    }

    /// Takes one step: does what is next, until the host is needed or one
    /// piece of work is done, and says what the host shall do.
    ///
    /// The host answers `Action::Arithmetic` and `Action::Clock` by passing
    /// `Event::Number` to the next step (for the clock, `Event::Unavailable`
    /// if it cannot be read); after any other action it passes `Event::Tick`.
    pub fn step(&mut self, ast: &Ast, event: Event) -> (action: Action)
        requires
            old(self).wf(),
        ensures
            final(self).wf(),
            (final(self)@, action@) == machine::step(old(self)@, ast, event),
    {
        let mut control = Control::Idle;
        std::mem::swap(&mut self.control, &mut control);
        let action = match control {
            Control::Idle => Action::Done,
            Control::Execute(stmt) => self.execute(ast, stmt),
            Control::Evaluate(expr) => self.evaluate(ast, expr),
            Control::Deliver(value) => match self.pop_frame() {
                None => Action::Done,
                Some(frame) => {
                    assert(crate::validity::frame_ok(
                        old(self)@.frames.last(),
                        crate::validity::sizes(old(self)@),
                    ));
                    self.resume(ast, frame, value)
                },
            },
            Control::Unwinding(error) => self.unwind(error),
            Control::Arithmetic { operator, left, right } => match event {
                Event::Number(bits) => self.deliver(LoxType::Number(bits)),
                _ => {
                    self.control = Control::Arithmetic { operator, left, right };
                    Action::Arithmetic { operator, left, right }
                },
            },
            Control::Clock => match event {
                Event::Number(bits) => self.deliver(LoxType::Number(bits)),
                Event::Unavailable => self.raise(
                    InterpreterError::runtime_error(None, "could not retrieve time."),
                ),
                Event::Tick => {
                    self.control = Control::Clock;
                    Action::Clock
                },
            },
        };
        proof {
            self.lemma_fits();
            lemma_step_wf(old(self)@, ast, event);
        }
        action
    }
}


impl Interpreter {
    /// Takes up to `limit` steps in a row and stops early at the first
    /// action that is not `Action::Continue`. Saves the host the round trip
    /// for steps that ask nothing of it.
    pub fn run(&mut self, ast: &Ast, limit: usize) -> (action: Action)
        requires
            old(self).wf(),
        ensures
            final(self).wf(),
            (final(self)@, action@) == machine::run(old(self)@, ast, limit as nat),
    {
        let mut left = limit;
        while left > 0
            invariant
                self.wf(),
                machine::run(old(self)@, ast, limit as nat) == machine::run(self@, ast, left as nat),
            decreases left,
        {
            let action = self.step(ast, Event::Tick);
            match action {
                Action::Continue => {
                    left = left - 1;
                },
                _ => {
                    return action;
                },
            }
        }
        Action::Continue
    }
}

} // verus!
