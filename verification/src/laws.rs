//! Laws of the machine: what holds of calls, variables, properties and
//! scopes whatever the program is.

use vstd::prelude::*;

use crate::ast::Ast;
use crate::class::find_method;
use crate::environment::{
    ancestor, bind, lemma_ancestor_grows, lookup_at, scopes_wf, ScopeView,
};
use crate::error::{
    arity_mismatch, failure, undefined_property, undefined_variable, InterpreterErrorView,
    RuntimeErrorView,
};
use crate::function::{arity_of, Function};
use crate::lox_type::Value;
use crate::machine::{
    after, assignment_target, call, deliver, enter_block, finish_call, get_property, invoke,
    lookup_variable, raise, resume, step, unwind, variable, write_variable, ActionView,
    ControlView, Event, FrameView, State,
};
use crate::token::Token;

verus! {

/// A call with the wrong number of arguments fails, and the failure names
/// the number that the function expects and the number that was passed.
/// Nothing is called.
pub proof fn lemma_arity_mismatch(
    s: State,
    ast: &Ast,
    paren: Token,
    function: Function,
    arguments: Seq<Value>,
)
    requires
        arguments.len() != arity_of(function, ast),
    ensures
        invoke(s, ast, paren, Value::Callable(function), arguments) == raise(
            s,
            failure(Some(paren), arity_mismatch(arity_of(function, ast), arguments.len())),
        ),
{
}

/// A class whose initializer expects another number of arguments than was
/// passed cannot be called either: the call fails with the two numbers.
pub proof fn lemma_initializer_arity(
    s: State,
    ast: &Ast,
    paren: Token,
    class: usize,
    arguments: Seq<Value>,
)
    requires
        find_method(s.classes, class as int, "init"@) matches Some(init) && init is User
            && arguments.len() != arity_of(init, ast),
    ensures
        invoke(s, ast, paren, Value::Class(class), arguments).0.control == ControlView::Unwinding(
            failure(
                Some(paren),
                arity_mismatch(
                    arity_of(find_method(s.classes, class as int, "init"@).unwrap(), ast),
                    arguments.len(),
                ),
            ),
        ),
        invoke(s, ast, paren, Value::Class(class), arguments).0.frames == s.frames,
{
}

/// A value that is neither a function nor a class cannot be called.
pub proof fn lemma_not_callable(
    s: State,
    ast: &Ast,
    paren: Token,
    callee: Value,
    arguments: Seq<Value>,
)
    requires
        !(callee is Callable),
        !(callee is Class),
    ensures
        invoke(s, ast, paren, callee, arguments) == raise(
            s,
            failure(Some(paren), "Can only call functions and classes."@),
        ),
{
}

/// Reading a variable that is not bound where it is looked for fails, and
/// the failure names the variable. No value is made up for it.
pub proof fn lemma_undefined_variable(s: State, name: Token)
    requires
        variable(s, name) is None,
    ensures
        lookup_variable(s, name) == raise(
            s,
            failure(Some(name), undefined_variable(name.lexeme@)),
        ),
{
}

/// Assigning to a variable that is not bound where it is looked for fails,
/// names the variable, and binds nothing.
pub proof fn lemma_undefined_assignment(s: State, name: Token, value: Value)
    requires
        assignment_target(s, name) is None,
    ensures
        write_variable(s, name, value) == raise(
            s,
            failure(Some(name), undefined_variable(name.lexeme@)),
        ),
        write_variable(s, name, value).0.scopes == s.scopes,
{
}

/// Reading a property that an instance neither holds as a field nor finds
/// as a method fails, and the failure names the property.
pub proof fn lemma_undefined_property(s: State, name: Token, instance: usize)
    requires
        instance < s.instances.len(),
        !s.instances[instance as int].fields.contains_key(name.lexeme@),
        find_method(s.classes, s.instances[instance as int].class as int, name.lexeme@) is None,
    ensures
        get_property(s, name, Value::Instance(instance)) == raise(
            s,
            failure(Some(name), undefined_property(name.lexeme@)),
        ),
{
}

/// A field hides a method of the same name.
pub proof fn lemma_field_before_method(s: State, name: Token, instance: usize)
    requires
        instance < s.instances.len(),
        s.instances[instance as int].fields.contains_key(name.lexeme@),
    ensures
        get_property(s, name, Value::Instance(instance)) == deliver(
            s,
            s.instances[instance as int].fields[name.lexeme@],
        ),
{
}

/// Only an instance has properties.
pub proof fn lemma_property_of_instance(s: State, name: Token, object: Value)
    requires
        !(object is Instance),
    ensures
        get_property(s, name, object) == raise(
            s,
            failure(Some(name), "Only instances have properties."@),
        ),
{
}

/// An initializer gives the instance it was bound to: whether its body runs
/// to the end or returns, with whatever value, the call yields what `this`
/// names in the scope that the initializer captured.
pub proof fn lemma_initializer_gives_instance(
    s: State,
    previous: usize,
    closure: usize,
    result: Value,
    instance: Value,
)
    requires
        lookup_at(s.scopes, closure as int, 0, "this"@) == Some(instance),
    ensures
        finish_call(s, previous, closure, true, result) == deliver(
            State { env: previous, ..s },
            instance,
        ),
{
}

/// Whatever the initializer gave, calling a class yields the new instance.
pub proof fn lemma_construct_gives_instance(s: State, ast: &Ast, instance: usize, value: Value)
    ensures
        resume(s, ast, FrameView::Construct { instance }, value) == deliver(
            s,
            Value::Instance(instance),
        ),
{
}

/// A declared function runs in a new scope inside the scope that it
/// captured when it was declared, wherever it is called from; the scopes
/// that existed before the call are untouched; and the caller's scope is
/// remembered in the call frame.
pub proof fn lemma_call_scope(
    s: State,
    ast: &Ast,
    declaration: usize,
    closure: usize,
    is_initializer: bool,
    arguments: Seq<Value>,
)
    requires
        s.scopes.len() < usize::MAX,
    ensures
        ({
            let after = call(
                s,
                ast,
                Function::User { declaration, closure, is_initializer },
                arguments,
            ).0;
            &&& after.scopes.len() == s.scopes.len() + 1
            &&& after.scopes.subrange(0, s.scopes.len() as int) == s.scopes
            &&& after.scopes.last().enclosing == Some(closure)
            &&& after.env == s.scopes.len()
            &&& after.frames.len() == s.frames.len() + 3
            &&& after.frames[s.frames.len() as int] == (FrameView::Call {
                previous: s.env,
                closure,
                is_initializer,
            })
        }),
{
    let after = call(s, ast, Function::User { declaration, closure, is_initializer }, arguments).0;
    assert(after.scopes.subrange(0, s.scopes.len() as int) =~= s.scopes);
}

/// The scope that a frame brings back when it is dropped: the frame of a
/// block and the frame of a call remember the scope that was current when
/// the block or the call was entered.
pub open spec fn restores(frame: FrameView) -> Option<usize> {
    match frame {
        FrameView::EndBlock { previous } => Some(previous),
        FrameView::Call { previous, .. } => Some(previous),
        _ => None,
    }
}

/// A step works on the top of the stack only. The frame of a block or of a
/// call at place `n` and the frames below it stay as they are for as long
/// as the frame is not dropped; and the step that drops it, whether what is
/// above it has run to its end, has returned or has failed, makes the scope
/// that the frame remembers the current one and leaves the frames below.
pub proof fn lemma_step_frame(t: State, ast: &Ast, event: Event, n: int)
    requires
        0 <= n < t.frames.len(),
        restores(t.frames[n]) is Some,
    ensures
        ({
            let u = step(t, ast, event).0;
            if u.frames.len() > n {
                u.frames.subrange(0, n + 1) == t.frames.subrange(0, n + 1)
            } else {
                u.frames == t.frames.subrange(0, n) && u.env == restores(t.frames[n]).unwrap()
            }
        }),
{
    let u = step(t, ast, event).0;
    let taken = State { control: ControlView::Idle, ..t };
    let rest = State { frames: t.frames.drop_last(), ..taken };
    match t.control {
        ControlView::Deliver(value) => {
            lemma_resume_frames(rest, ast, t.frames.last(), value);
        },
        ControlView::Unwinding(error) => {
            lemma_unwind_frames(taken, error);
        },
        ControlView::Execute(stmt) => {
            lemma_execute_frames(taken, ast, stmt);
        },
        ControlView::Evaluate(expr) => {
            lemma_evaluate_frames(taken, ast, expr);
        },
        _ => {},
    }
    if u.frames.len() > n {
        assert(u.frames.subrange(0, n + 1) =~= t.frames.subrange(0, n + 1));
    } else {
        assert(u.frames =~= t.frames.subrange(0, n));
    }
}

/// What a transition does to the stack: it leaves the frames that were
/// there and puts some on top.
pub open spec fn grows(before: Seq<FrameView>, after: Seq<FrameView>) -> bool {
    before.len() <= after.len() && after.subrange(0, before.len() as int) == before
}

/// Starting on a statement only adds frames.
proof fn lemma_execute_frames(s: State, ast: &Ast, stmt: usize)
    ensures
        grows(s.frames, crate::machine::execute(s, ast, stmt).0.frames),
{
    let u = crate::machine::execute(s, ast, stmt).0;
    assert(u.frames.subrange(0, s.frames.len() as int) =~= s.frames);
}

/// Starting on an expression only adds frames.
proof fn lemma_evaluate_frames(s: State, ast: &Ast, expr: usize)
    ensures
        grows(s.frames, crate::machine::evaluate(s, ast, expr).0.frames),
{
    let u = crate::machine::evaluate(s, ast, expr).0;
    assert(u.frames.subrange(0, s.frames.len() as int) =~= s.frames);
}

/// Calling a value only adds frames.
proof fn lemma_invoke_frames(
    s: State,
    ast: &Ast,
    paren: Token,
    callee: Value,
    arguments: Seq<Value>,
)
    ensures
        grows(s.frames, invoke(s, ast, paren, callee, arguments).0.frames),
{
    let u = invoke(s, ast, paren, callee, arguments).0;
    assert(u.frames.subrange(0, s.frames.len() as int) =~= s.frames);
}

/// Handing a value to a frame that has been taken off the stack leaves the
/// frames below it. The frame of a block or of a call adds nothing and
/// brings its scope back.
proof fn lemma_resume_frames(s: State, ast: &Ast, frame: FrameView, value: Value)
    ensures
        grows(s.frames, resume(s, ast, frame, value).0.frames),
        restores(frame) matches Some(previous) ==> resume(s, ast, frame, value).0.frames
            == s.frames && resume(s, ast, frame, value).0.env == previous,
{
    let u = resume(s, ast, frame, value).0;
    match frame {
        FrameView::Callee { expr } => {
            if expr < ast.exprs.len() {
                match ast.exprs[expr as int] {
                    crate::ast::Expr::Call { paren, arguments, .. } => {
                        lemma_invoke_frames(s, ast, paren, value, Seq::empty());
                    },
                    _ => {},
                }
            }
        },
        FrameView::Argument { expr, callee, arguments: evaluated } => {
            if expr < ast.exprs.len() {
                match ast.exprs[expr as int] {
                    crate::ast::Expr::Call { paren, arguments, .. } => {
                        lemma_invoke_frames(s, ast, paren, callee, evaluated.push(value));
                    },
                    _ => {},
                }
            }
        },
        _ => {},
    }
    assert(u.frames.subrange(0, s.frames.len() as int) =~= s.frames);
}

/// Taking an interruption one frame further drops the top frame and adds
/// none. The frame of a block or of a call brings its scope back.
proof fn lemma_unwind_frames(s: State, error: InterpreterErrorView)
    ensures
        s.frames.len() > 0 ==> unwind(s, error).0.frames == s.frames.drop_last(),
        s.frames.len() > 0 ==> (restores(s.frames.last()) matches Some(previous) ==> unwind(
            s,
            error,
        ).0.env == previous),
        s.frames.len() == 0 ==> unwind(s, error).0.frames == s.frames,
{
}

/// The scope from before comes back on every way out. Take a state in
/// which the frame of a block or of a call stands at place `n`, and let
/// the machine run, whatever the host answers. In the first state in which
/// that frame is no longer on the stack, the scope that the frame
/// remembers is the current one and the frames below it are what they
/// were, whether the frame went because what was above it ran to its end,
/// because a `return` passed or ended there, or because a failure passed.
pub proof fn lemma_scope_comes_back(s: State, ast: &Ast, events: Seq<Event>, n: int)
    requires
        0 <= n < s.frames.len(),
        restores(s.frames[n]) is Some,
        forall|k: int|
            0 <= k < events.len() ==> (#[trigger] after(s, ast, events.subrange(0, k))).frames.len()
                > n,
        after(s, ast, events).frames.len() <= n,
    ensures
        after(s, ast, events).env == restores(s.frames[n]).unwrap(),
        after(s, ast, events).frames == s.frames.subrange(0, n),
{
    assert(events.len() > 0);
    let last = events.len() - 1;
    lemma_frame_stays(s, ast, events, n, last);
    let t = after(s, ast, events.subrange(0, last));
    assert(events.drop_last() =~= events.subrange(0, last));
    assert(t.frames[n] == t.frames.subrange(0, n + 1)[n]);
    assert(s.frames[n] == s.frames.subrange(0, n + 1)[n]);
    lemma_step_frame(t, ast, events.last(), n);
    assert(t.frames.subrange(0, n) =~= t.frames.subrange(0, n + 1).subrange(0, n));
    assert(s.frames.subrange(0, n) =~= s.frames.subrange(0, n + 1).subrange(0, n));
}

/// As long as the frame at place `n` has not been dropped, it and the
/// frames below it are what they were.
proof fn lemma_frame_stays(s: State, ast: &Ast, events: Seq<Event>, n: int, k: int)
    requires
        0 <= n < s.frames.len(),
        restores(s.frames[n]) is Some,
        0 <= k <= events.len(),
        forall|j: int|
            0 <= j <= k ==> (#[trigger] after(s, ast, events.subrange(0, j))).frames.len() > n,
    ensures
        after(s, ast, events.subrange(0, k)).frames.subrange(0, n + 1) == s.frames.subrange(
            0,
            n + 1,
        ),
    decreases k,
{
    if k == 0 {
        assert(events.subrange(0, 0).len() == 0);
    } else {
        lemma_frame_stays(s, ast, events, n, k - 1);
        let t = after(s, ast, events.subrange(0, k - 1));
        assert(events.subrange(0, k).drop_last() =~= events.subrange(0, k - 1));
        assert(events.subrange(0, k).last() == events[k - 1]);
        assert(t.frames[n] == t.frames.subrange(0, n + 1)[n]);
        assert(s.frames[n] == s.frames.subrange(0, n + 1)[n]);
        lemma_step_frame(t, ast, events[k - 1], n);
    }
}

/// A block gives the scope back that it was entered from. `enter_block`
/// puts the frame of the block on the stack; once the machine has dropped
/// it, by running the statements to their end, by a `return` or by a
/// failure, the scope and the frames are those of the state in which the
/// block was entered.
pub proof fn lemma_block_restores_scope(
    s: State,
    ast: &Ast,
    stmt: usize,
    env: usize,
    events: Seq<Event>,
)
    requires
        forall|k: int|
            0 <= k < events.len() ==> (#[trigger] after(
                enter_block(s, stmt, env).0,
                ast,
                events.subrange(0, k),
            )).frames.len() > s.frames.len(),
        after(enter_block(s, stmt, env).0, ast, events).frames.len() <= s.frames.len(),
    ensures
        after(enter_block(s, stmt, env).0, ast, events).env == s.env,
        after(enter_block(s, stmt, env).0, ast, events).frames == s.frames,
{
    let entered = enter_block(s, stmt, env).0;
    let n = s.frames.len() as int;
    assert(entered.frames[n] == FrameView::EndBlock { previous: s.env });
    lemma_scope_comes_back(entered, ast, events, n);
    assert(entered.frames.subrange(0, n) =~= s.frames);
}

/// A call gives the scope back that it was made from. Calling a declared
/// function puts the frame of the call on the stack; once the machine has
/// dropped it, because the body ran to its end, returned or failed, the
/// scope and the frames are those of the state in which the call was made.
pub proof fn lemma_call_restores_scope(
    s: State,
    ast: &Ast,
    declaration: usize,
    closure: usize,
    is_initializer: bool,
    arguments: Seq<Value>,
    events: Seq<Event>,
)
    requires
        forall|k: int|
            0 <= k < events.len() ==> (#[trigger] after(
                call(s, ast, Function::User { declaration, closure, is_initializer }, arguments).0,
                ast,
                events.subrange(0, k),
            )).frames.len() > s.frames.len(),
        after(
            call(s, ast, Function::User { declaration, closure, is_initializer }, arguments).0,
            ast,
            events,
        ).frames.len() <= s.frames.len(),
    ensures
        after(
            call(s, ast, Function::User { declaration, closure, is_initializer }, arguments).0,
            ast,
            events,
        ).env == s.env,
        after(
            call(s, ast, Function::User { declaration, closure, is_initializer }, arguments).0,
            ast,
            events,
        ).frames == s.frames,
{
    let entered = call(
        s,
        ast,
        Function::User { declaration, closure, is_initializer },
        arguments,
    ).0;
    let n = s.frames.len() as int;
    assert(entered.frames[n] == FrameView::Call { previous: s.env, closure, is_initializer });
    lemma_scope_comes_back(entered, ast, events, n);
    assert(entered.frames.subrange(0, n) =~= s.frames);
}

/// A `return` ends at the nearest call frame: the call yields its value
/// and the caller's scope is current again. It never goes past a call
/// frame.
pub proof fn lemma_return_stops_at_call(
    s: State,
    value: Value,
    previous: usize,
    closure: usize,
    is_initializer: bool,
)
    requires
        s.frames.len() > 0,
        s.frames.last() == (FrameView::Call { previous, closure, is_initializer }),
    ensures
        unwind(s, InterpreterErrorView::Return(value)) == finish_call(
            State { frames: s.frames.drop_last(), ..s },
            previous,
            closure,
            is_initializer,
            value,
        ),
        unwind(s, InterpreterErrorView::Return(value)).0.env == previous,
        !is_initializer ==> unwind(s, InterpreterErrorView::Return(value)).0.control
            == ControlView::Deliver(value),
{
}

/// A failure passes a call frame unchanged, and the caller's scope is
/// current again.
pub proof fn lemma_failure_passes_call(
    s: State,
    error: RuntimeErrorView,
    previous: usize,
    closure: usize,
    is_initializer: bool,
)
    requires
        s.frames.len() > 0,
        s.frames.last() == (FrameView::Call { previous, closure, is_initializer }),
    ensures
        unwind(s, InterpreterErrorView::RuntimeError(error)) == raise(
            State { frames: s.frames.drop_last(), env: previous, ..s },
            InterpreterErrorView::RuntimeError(error),
        ),
{
}

/// With no frame left an interruption ends the run and is handed to the
/// host as it is. What was declared and made stays.
pub proof fn lemma_interruption_ends_run(s: State, error: InterpreterErrorView)
    requires
        s.frames.len() == 0,
    ensures
        unwind(s, error) == (State { control: ControlView::Idle, ..s }, ActionView::Halt(error)),
{
}

/// What a step never undoes: `later` has every scope, class and instance
/// of `earlier`; no scope has another scope around it than before, no class
/// has changed at all, and no instance is of another class than before.
/// The recorded distances and the loaded program are the same.
pub open spec fn keeps_history(earlier: State, later: State) -> bool {
    &&& earlier.scopes.len() <= later.scopes.len()
    &&& earlier.classes.len() <= later.classes.len()
    &&& earlier.instances.len() <= later.instances.len()
    &&& forall|i: int|
        0 <= i < earlier.scopes.len() ==> (#[trigger] later.scopes[i]).enclosing
            == earlier.scopes[i].enclosing
    &&& forall|i: int| 0 <= i < earlier.classes.len() ==> #[trigger] later.classes[i] == earlier.classes[i]
    &&& forall|i: int|
        0 <= i < earlier.instances.len() ==> (#[trigger] later.instances[i]).class
            == earlier.instances[i].class
    &&& later.locals == earlier.locals
    &&& later.program == earlier.program
}

/// Entering a function keeps the history.
pub proof fn lemma_call_keeps_history(s: State, ast: &Ast, function: Function, arguments: Seq<Value>)
    ensures
        keeps_history(s, call(s, ast, function, arguments).0),
{
}

/// Calling a value keeps the history.
pub proof fn lemma_invoke_keeps_history(s: State, ast: &Ast, paren: Token, callee: Value, arguments: Seq<Value>)
    ensures
        keeps_history(s, invoke(s, ast, paren, callee, arguments).0),
{
    match callee {
        Value::Class(class) => {
            let instance = s.instances.len() as usize;
            match find_method(s.classes, class as int, "init"@) {
                Some(Function::User { declaration, closure, is_initializer }) => {
                    let bound = State {
                        scopes: crate::function::bound_scopes(
                            s.scopes,
                            closure,
                            Value::Instance(instance),
                        ),
                        frames: s.frames.push(FrameView::Construct { instance }),
                        instances: s.instances.push(
                            crate::class::InstanceView { class, fields: Map::empty() },
                        ),
                        ..s
                    };
                    lemma_call_keeps_history(
                        bound,
                        ast,
                        Function::User {
                            declaration,
                            closure: s.scopes.len() as usize,
                            is_initializer,
                        },
                        arguments,
                    );
                },
                _ => {},
            }
        },
        _ => {},
    }
}

/// Handing a value to a frame keeps the history.
pub proof fn lemma_resume_keeps_history(s: State, ast: &Ast, frame: FrameView, value: Value)
    requires
        scopes_wf(s.scopes),
        s.env < s.scopes.len(),
    ensures
        keeps_history(s, resume(s, ast, frame, value).0),
{
    match frame {
        FrameView::Callee { expr } => {
            if expr < ast.exprs.len() {
                match ast.exprs[expr as int] {
                    crate::ast::Expr::Call { paren, arguments, .. } => {
                        lemma_invoke_keeps_history(s, ast, paren, value, Seq::empty());
                    },
                    _ => {},
                }
            }
        },
        FrameView::Argument { expr, callee, arguments: evaluated } => {
            if expr < ast.exprs.len() {
                match ast.exprs[expr as int] {
                    crate::ast::Expr::Call { paren, arguments, .. } => {
                        lemma_invoke_keeps_history(s, ast, paren, callee, evaluated.push(value));
                    },
                    _ => {},
                }
            }
        },
        FrameView::Assign { expr } => {
            if expr < ast.exprs.len() {
                match ast.exprs[expr as int] {
                    crate::ast::Expr::Assign { name, .. } => {
                        if s.locals.contains_key(name.key()) {
                            crate::environment::lemma_ancestor_in_range(
                                s.scopes,
                                s.env as int,
                                s.locals[name.key()] as nat,
                            );
                        }
                    },
                    _ => {},
                }
            }
        },
        _ => {},
    }
}

/// The scopes, classes and instances that exist stay as they are in every
/// step but for the values that their variables and fields hold: a scope
/// keeps the scope around it, a class never changes once it is declared,
/// an instance keeps its class, and nothing is ever removed.
pub proof fn lemma_step_keeps_history(s: State, ast: &Ast, event: crate::machine::Event)
    requires
        scopes_wf(s.scopes),
        s.env < s.scopes.len(),
    ensures
        keeps_history(s, crate::machine::step(s, ast, event).0),
{
    let taken = State { control: ControlView::Idle, ..s };
    match s.control {
        ControlView::Deliver(value) => {
            if s.frames.len() > 0 {
                lemma_resume_keeps_history(
                    State { frames: s.frames.drop_last(), ..taken },
                    ast,
                    s.frames.last(),
                    value,
                );
            }
        },
        _ => {},
    }
}


/// A function captures the scope in which its declaration is executed: the
/// declaration binds the function's name, in the current scope, to a
/// function whose captured scope is the current scope.
pub proof fn lemma_declaration_captures_scope(s: State, ast: &Ast, stmt: usize)
    requires
        stmt < ast.stmts.len(),
        ast.stmts[stmt as int] is Function,
    ensures
        crate::machine::execute(s, ast, stmt) == deliver(
            State {
                scopes: bind(
                    s.scopes,
                    s.env as int,
                    crate::machine::function_name(ast, stmt),
                    Value::Callable(
                        Function::User { declaration: stmt, closure: s.env, is_initializer: false },
                    ),
                ),
                ..s
            },
            Value::Nil,
        ),
{
}

/// Every call runs in a scope of its own: a call made later, from a state
/// that keeps the history of an earlier call, runs in another scope than
/// the earlier one, and the scope of the earlier call is still there.
pub proof fn lemma_calls_get_their_own_scopes(
    s: State,
    t: State,
    ast: &Ast,
    first: Function,
    second: Function,
    given: Seq<Value>,
    passed: Seq<Value>,
)
    requires
        first is User,
        second is User,
        keeps_history(call(s, ast, first, given).0, t),
        t.scopes.len() < usize::MAX,
    ensures
        call(s, ast, first, given).0.env == s.scopes.len(),
        call(t, ast, second, passed).0.env == t.scopes.len(),
        call(t, ast, second, passed).0.env != call(s, ast, first, given).0.env,
        call(s, ast, first, given).0.env < call(t, ast, second, passed).0.scopes.len(),
{
}

/// From inside a call, a reference that was resolved `distance` scopes out
/// (one or more) reaches the scope that lies one less out from the scope
/// that the called function captured, wherever the call was made from.
pub proof fn lemma_call_reaches_capture(
    s: State,
    ast: &Ast,
    declaration: usize,
    closure: usize,
    is_initializer: bool,
    arguments: Seq<Value>,
    distance: nat,
)
    requires
        scopes_wf(s.scopes),
        closure < s.scopes.len(),
        s.scopes.len() < usize::MAX,
        distance >= 1,
    ensures
        ({
            let entered = call(
                s,
                ast,
                Function::User { declaration, closure, is_initializer },
                arguments,
            ).0;
            ancestor(entered.scopes, entered.env as int, distance) == ancestor(
                s.scopes,
                closure as int,
                (distance - 1) as nat,
            )
        }),
{
    let entered = call(
        s,
        ast,
        Function::User { declaration, closure, is_initializer },
        arguments,
    ).0;
    lemma_ancestor_grows(s.scopes, entered.scopes, closure as int, (distance - 1) as nat);
}

/// Closures that captured the same scope share its variables. Let two
/// functions have captured the scope `closure`, and let `name` be resolved
/// `distance` scopes out in their bodies, to the scope `shared`. An
/// assignment to `name` made in a call of the first changes the scope
/// `shared` itself, and a read of `name` in any later call of the second
/// finds what the scope `shared` then holds: the value that the first
/// assigned, if nothing was assigned since. No call works on a copy.
pub proof fn lemma_closures_share_captured_scope(
    s: State,
    t: State,
    ast: &Ast,
    closure: usize,
    writer: usize,
    reader: usize,
    given: Seq<Value>,
    passed: Seq<Value>,
    name: Token,
    distance: usize,
    shared: int,
    value: Value,
)
    requires
        scopes_wf(s.scopes),
        closure < s.scopes.len(),
        s.scopes.len() < usize::MAX,
        t.scopes.len() < usize::MAX,
        s.locals.contains_key(name.key()),
        s.locals[name.key()] == distance,
        distance >= 1,
        ancestor(s.scopes, closure as int, (distance - 1) as nat) == Some(shared),
        s.scopes[shared].values.contains_key(name.lexeme@),
        keeps_history(
            write_variable(
                call(
                    s,
                    ast,
                    Function::User { declaration: writer, closure, is_initializer: false },
                    given,
                ).0,
                name,
                value,
            ).0,
            t,
        ),
        t.scopes[shared].values.contains_key(name.lexeme@),
    ensures
        ({
            let writing = call(
                s,
                ast,
                Function::User { declaration: writer, closure, is_initializer: false },
                given,
            ).0;
            let reading = call(
                t,
                ast,
                Function::User { declaration: reader, closure, is_initializer: false },
                passed,
            ).0;
            &&& write_variable(writing, name, value) == deliver(
                State { scopes: bind(writing.scopes, shared, name.lexeme@, value), ..writing },
                value,
            )
            &&& write_variable(writing, name, value).0.scopes[shared].values[name.lexeme@] == value
            &&& lookup_variable(reading, name) == deliver(
                reading,
                t.scopes[shared].values[name.lexeme@],
            )
        }),
{
    let first = Function::User { declaration: writer, closure, is_initializer: false };
    let second = Function::User { declaration: reader, closure, is_initializer: false };
    let writing = call(s, ast, first, given).0;
    let written = write_variable(writing, name, value).0;
    let reading = call(t, ast, second, passed).0;
    lemma_call_reaches_capture(s, ast, writer, closure, false, given, distance as nat);
    crate::environment::lemma_ancestor_in_range(s.scopes, closure as int, (distance - 1) as nat);
    assert(writing.scopes[shared] == s.scopes[shared]);
    // The links of the scopes of `s` are the same in `t`.
    assert forall|i: int| 0 <= i < s.scopes.len() implies (#[trigger] t.scopes[i]).enclosing
        == s.scopes[i].enclosing by {
        assert(written.scopes[i].enclosing == writing.scopes[i].enclosing);
        assert(writing.scopes[i] == s.scopes[i]);
    }
    lemma_reaches_in_later_state(s.scopes, t.scopes, reading.scopes, closure, distance as nat);
    assert(reading.scopes[shared] == t.scopes[shared]);
}

/// A call made in a later state reaches, at a distance of one or more, the
/// same scope as the captured scope did when it was captured.
proof fn lemma_reaches_in_later_state(
    earlier: Seq<ScopeView>,
    later: Seq<ScopeView>,
    entered: Seq<ScopeView>,
    closure: usize,
    distance: nat,
)
    requires
        scopes_wf(earlier),
        closure < earlier.len(),
        earlier.len() <= later.len(),
        forall|i: int|
            0 <= i < earlier.len() ==> (#[trigger] later[i]).enclosing == earlier[i].enclosing,
        entered.len() == later.len() + 1,
        forall|i: int| 0 <= i < later.len() ==> #[trigger] entered[i] == later[i],
        entered[later.len() as int].enclosing == Some(closure),
        distance >= 1,
    ensures
        ancestor(entered, later.len() as int, distance) == ancestor(
            earlier,
            closure as int,
            (distance - 1) as nat,
        ),
{
    assert forall|i: int| 0 <= i < earlier.len() implies (#[trigger] entered[i]).enclosing
        == earlier[i].enclosing by {
        assert(entered[i] == later[i]);
    }
    lemma_ancestor_grows(earlier, entered, closure as int, (distance - 1) as nat);
}

/// Closures that captured different scopes do not touch each other's
/// variables. An assignment to `name` made in a call of a function changes
/// the one scope that the reference reaches from the scope the function
/// captured; every other scope, and so what any closure reads that reaches
/// another scope, is as it was.
pub proof fn lemma_closures_of_other_scopes_are_independent(
    s: State,
    ast: &Ast,
    closure: usize,
    declaration: usize,
    given: Seq<Value>,
    name: Token,
    distance: usize,
    own: int,
    other: int,
    value: Value,
)
    requires
        scopes_wf(s.scopes),
        closure < s.scopes.len(),
        s.scopes.len() < usize::MAX,
        s.locals.contains_key(name.key()),
        s.locals[name.key()] == distance,
        distance >= 1,
        ancestor(s.scopes, closure as int, (distance - 1) as nat) == Some(own),
        0 <= other < s.scopes.len(),
        other != own,
    ensures
        write_variable(
            call(
                s,
                ast,
                Function::User { declaration, closure, is_initializer: false },
                given,
            ).0,
            name,
            value,
        ).0.scopes[other] == s.scopes[other],
{
    let entered = call(
        s,
        ast,
        Function::User { declaration, closure, is_initializer: false },
        given,
    ).0;
    lemma_call_reaches_capture(s, ast, declaration, closure, false, given, distance as nat);
    crate::environment::lemma_ancestor_in_range(s.scopes, closure as int, (distance - 1) as nat);
    assert(entered.scopes[other] == s.scopes[other]);
}

} // verus!
