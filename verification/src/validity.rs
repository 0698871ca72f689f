//! What holds of every state that the machine reaches: each handle that a
//! value, a frame or a link carries names something that exists.

use vstd::prelude::*;

use crate::ast::Ast;
use crate::class::{classes_wf, find_method, ClassView, InstanceView};
use crate::environment::{ancestor, bind, lookup_at, scopes_wf, ScopeView};
use crate::function::{bound_scopes, Function};
use crate::error::InterpreterErrorView;
use crate::lox_type::Value;
use crate::machine::{
    arguments_map, call, declare_class, deliver, evaluate, execute, finish_call, get_property,
    invoke, load, lookup_variable, method_table, resume, step, super_method, unwind,
    write_variable, ControlView, Event, FrameView, State,
};
use crate::token::Token;

verus! {

/// How many scopes, classes and instances there are.
pub ghost struct Sizes {
    pub scopes: nat,
    pub classes: nat,
    pub instances: nat,
}

/// The sizes of the tables of a state.
pub open spec fn sizes(s: State) -> Sizes {
    Sizes { scopes: s.scopes.len(), classes: s.classes.len(), instances: s.instances.len() }
}

/// A declared function captured a scope that exists.
pub open spec fn function_ok(function: Function, n: Sizes) -> bool {
    match function {
        Function::User { closure, .. } => closure < n.scopes,
        Function::Native { .. } => true,
    }
}

/// The handle that a value carries names something that exists.
pub open spec fn value_ok(value: Value, n: Sizes) -> bool {
    match value {
        Value::Callable(function) => function_ok(function, n),
        Value::Class(class) => class < n.classes,
        Value::Instance(instance) => instance < n.instances,
        _ => true,
    }
}

/// Every value that a table of bindings holds is good.
pub open spec fn bindings_ok(values: Map<Seq<char>, Value>, n: Sizes) -> bool {
    forall|name: Seq<char>| #[trigger] values.contains_key(name) ==> value_ok(values[name], n)
}

/// Every method is a declared function that captured a scope that exists.
pub open spec fn methods_ok(methods: Map<Seq<char>, Function>, n: Sizes) -> bool {
    forall|name: Seq<char>| #[trigger]
        methods.contains_key(name) ==> methods[name] is User && function_ok(methods[name], n)
}

/// Every value of a sequence is good.
pub open spec fn values_ok(values: Seq<Value>, n: Sizes) -> bool {
    forall|i: int| 0 <= i < values.len() ==> value_ok(#[trigger] values[i], n)
}

/// The scopes and instances that a frame names exist, and the values that
/// it holds are good.
pub open spec fn frame_ok(frame: FrameView, n: Sizes) -> bool {
    match frame {
        FrameView::EndBlock { previous } => previous < n.scopes,
        FrameView::BinaryRight { left, .. } => value_ok(left, n),
        FrameView::Argument { callee, arguments, .. } => value_ok(callee, n) && values_ok(
            arguments,
            n,
        ),
        FrameView::SetValue { instance, .. } => instance < n.instances,
        FrameView::Call { previous, closure, .. } => previous < n.scopes && closure < n.scopes,
        FrameView::Construct { instance } => instance < n.instances,
        _ => true,
    }
}

/// Every frame of a stack is good.
pub open spec fn frames_ok(frames: Seq<FrameView>, n: Sizes) -> bool {
    forall|i: int| 0 <= i < frames.len() ==> frame_ok(#[trigger] frames[i], n)
}

/// The value that the control holds, if it holds one, is good.
pub open spec fn control_ok(control: ControlView, n: Sizes) -> bool {
    match control {
        ControlView::Deliver(value) => value_ok(value, n),
        ControlView::Unwinding(InterpreterErrorView::Return(value)) => value_ok(value, n),
        _ => true,
    }
}

/// Every value bound in a scope is good.
pub open spec fn scopes_ok(scopes: Seq<ScopeView>, n: Sizes) -> bool {
    forall|i: int| 0 <= i < scopes.len() ==> bindings_ok((#[trigger] scopes[i]).values, n)
}

/// The methods of every class are good.
pub open spec fn classes_ok(classes: Seq<ClassView>, n: Sizes) -> bool {
    forall|i: int| 0 <= i < classes.len() ==> methods_ok((#[trigger] classes[i]).methods, n)
}

/// Every instance is of a class that exists, and its fields hold good
/// values.
pub open spec fn instances_ok(instances: Seq<InstanceView>, n: Sizes) -> bool {
    forall|i: int|
        0 <= i < instances.len() ==> (#[trigger] instances[i]).class < n.classes && bindings_ok(
            instances[i].fields,
            n,
        )
}

/// The tables are no longer than an index can say.
pub open spec fn fits(s: State) -> bool {
    s.scopes.len() <= usize::MAX && s.classes.len() <= usize::MAX && s.instances.len()
        <= usize::MAX
}

/// What holds of every state that the machine reaches.
pub open spec fn state_wf(s: State) -> bool {
    &&& fits(s)
    &&& scopes_wf(s.scopes)
    &&& classes_wf(s.classes)
    &&& s.env < s.scopes.len()
    &&& scopes_ok(s.scopes, sizes(s))
    &&& classes_ok(s.classes, sizes(s))
    &&& instances_ok(s.instances, sizes(s))
    &&& frames_ok(s.frames, sizes(s))
    &&& control_ok(s.control, sizes(s))
}

/// A state stays good when its tables grow by entries that are good.
pub proof fn lemma_grow(s: State, t: State)
    requires
        state_wf(s),
        fits(t),
        s.scopes.len() <= t.scopes.len(),
        s.classes.len() <= t.classes.len(),
        s.instances.len() <= t.instances.len(),
        forall|i: int| 0 <= i < s.scopes.len() ==> #[trigger] t.scopes[i] == s.scopes[i],
        forall|i: int| 0 <= i < s.classes.len() ==> #[trigger] t.classes[i] == s.classes[i],
        forall|i: int| 0 <= i < s.instances.len() ==> #[trigger] t.instances[i] == s.instances[i],
        forall|i: int|
            s.scopes.len() <= i < t.scopes.len() ==> ((#[trigger] t.scopes[i]).enclosing matches Some(
                e,
            ) && e < i) && bindings_ok(t.scopes[i].values, sizes(t)),
        forall|i: int|
            s.classes.len() <= i < t.classes.len() ==> ((#[trigger] t.classes[i]).superclass matches Some(
                parent,
            ) ==> parent < i) && methods_ok(t.classes[i].methods, sizes(t)),
        forall|i: int|
            s.instances.len() <= i < t.instances.len() ==> (#[trigger] t.instances[i]).class
                < t.classes.len() && bindings_ok(t.instances[i].fields, sizes(t)),
        t.env < t.scopes.len(),
        frames_ok(t.frames, sizes(t)),
        control_ok(t.control, sizes(t)),
    ensures
        state_wf(t),
{
    assert forall|i: int| 0 <= i < t.scopes.len() implies bindings_ok(
        (#[trigger] t.scopes[i]).values,
        sizes(t),
    ) by {
        if i < s.scopes.len() {
            assert(bindings_ok(s.scopes[i].values, sizes(s)));
        }
    }
    assert forall|i: int| 0 <= i < t.classes.len() implies methods_ok(
        (#[trigger] t.classes[i]).methods,
        sizes(t),
    ) by {
        if i < s.classes.len() {
            assert(methods_ok(s.classes[i].methods, sizes(s)));
        }
    }
    assert forall|i: int| 0 <= i < t.instances.len() implies (#[trigger] t.instances[i]).class
        < t.classes.len() && bindings_ok(t.instances[i].fields, sizes(t)) by {
        if i < s.instances.len() {
            assert(bindings_ok(s.instances[i].fields, sizes(s)));
        }
    }
    assert(t.scopes[0] == s.scopes[0]);
    assert forall|i: int| 0 < i < t.scopes.len() implies ((#[trigger] t.scopes[i]).enclosing matches Some(
        e,
    ) && e < i) by {
        if i < s.scopes.len() {
            assert(t.scopes[i] == s.scopes[i]);
        }
    }
    assert forall|i: int| 0 <= i < t.classes.len() implies ((#[trigger] t.classes[i]).superclass matches Some(
        parent,
    ) ==> parent < i) by {
        if i < s.classes.len() {
            assert(t.classes[i] == s.classes[i]);
        }
    }
}

/// What a variable is bound to is good.
pub proof fn lemma_lookup_at_ok(s: State, start: int, distance: nat, name: Seq<char>)
    requires
        state_wf(s),
    ensures
        lookup_at(s.scopes, start, distance, name) matches Some(value) ==> value_ok(value, sizes(s)),
{
    crate::environment::lemma_ancestor_in_range(s.scopes, start, distance);
    match ancestor(s.scopes, start, distance) {
        Some(scope) => {
            assert(bindings_ok(s.scopes[scope].values, sizes(s)));
        },
        None => {},
    }
}

/// What a class finds as a method is a declared function that is good.
pub proof fn lemma_find_method_ok(s: State, class: int, name: Seq<char>)
    requires
        state_wf(s),
    ensures
        find_method(s.classes, class, name) matches Some(method) ==> method is User && function_ok(
            method,
            sizes(s),
        ),
    decreases class,
{
    if 0 <= class < s.classes.len() {
        assert(methods_ok(s.classes[class].methods, sizes(s)));
        if !s.classes[class].methods.contains_key(name) {
            match s.classes[class].superclass {
                Some(parent) => {
                    if parent < class {
                        lemma_find_method_ok(s, parent as int, name);
                    }
                },
                None => {},
            }
        }
    }
}

/// Parameters bound to good arguments are good bindings.
pub proof fn lemma_arguments_map_ok(params: Seq<Token>, arguments: Seq<Value>, count: nat, n: Sizes)
    requires
        values_ok(arguments, n),
    ensures
        bindings_ok(arguments_map(params, arguments, count), n),
    decreases count,
{
    if count > 0 {
        lemma_arguments_map_ok(params, arguments, (count - 1) as nat, n);
    }
}

/// Methods closed over a scope that exists are good.
pub proof fn lemma_method_table_ok(
    ast: &Ast,
    methods: Seq<usize>,
    closure: usize,
    count: nat,
    n: Sizes,
)
    requires
        closure < n.scopes,
    ensures
        methods_ok(method_table(ast, methods, closure, count), n),
    decreases count,
{
    if count > 0 {
        lemma_method_table_ok(ast, methods, closure, (count - 1) as nat, n);
    }
}

/// Binding a method to a good object keeps the state good.
pub proof fn lemma_bound_wf(s: State, closure: usize, object: Value)
    requires
        state_wf(s),
        closure < s.scopes.len(),
        value_ok(object, sizes(s)),
        s.scopes.len() < usize::MAX,
    ensures
        state_wf(State { scopes: bound_scopes(s.scopes, closure, object), ..s }),
{
    let t = State { scopes: bound_scopes(s.scopes, closure, object), ..s };
    lemma_grow(s, t);
}

/// Entering a function keeps the state good.
pub proof fn lemma_call_wf(s: State, ast: &Ast, function: Function, arguments: Seq<Value>)
    requires
        state_wf(s),
        function_ok(function, sizes(s)),
        values_ok(arguments, sizes(s)),
        fits(call(s, ast, function, arguments).0),
    ensures
        state_wf(call(s, ast, function, arguments).0),
{
    let t = call(s, ast, function, arguments).0;
    match function {
        Function::User { declaration, closure, .. } => {
            lemma_arguments_map_ok(
                crate::machine::parameters(ast, declaration),
                arguments,
                arguments.len(),
                sizes(t),
            );
            lemma_grow(s, t);
        },
        Function::Native { .. } => {},
    }
}

/// Calling a value keeps the state good.
pub proof fn lemma_invoke_wf(
    s: State,
    ast: &Ast,
    paren: Token,
    callee: Value,
    arguments: Seq<Value>,
)
    requires
        state_wf(s),
        value_ok(callee, sizes(s)),
        values_ok(arguments, sizes(s)),
        fits(invoke(s, ast, paren, callee, arguments).0),
    ensures
        state_wf(invoke(s, ast, paren, callee, arguments).0),
{
    match callee {
        Value::Callable(function) => {
            if arguments.len() == crate::function::arity_of(function, ast) {
                lemma_call_wf(s, ast, function, arguments);
            }
        },
        Value::Class(class) => {
            let instance = s.instances.len() as usize;
            let made = State {
                instances: s.instances.push(InstanceView { class, fields: Map::empty() }),
                ..s
            };
            lemma_find_method_ok(s, class as int, "init"@);
            match find_method(s.classes, class as int, "init"@) {
                Some(Function::User { declaration, closure, is_initializer }) => {
                    let init = Function::User { declaration, closure, is_initializer };
                    if arguments.len() == crate::function::arity_of(init, ast) {
                        let bound = State {
                            scopes: bound_scopes(s.scopes, closure, Value::Instance(instance)),
                            frames: s.frames.push(FrameView::Construct { instance }),
                            ..made
                        };
                        let result = call(
                            bound,
                            ast,
                            Function::User {
                                declaration,
                                closure: s.scopes.len() as usize,
                                is_initializer,
                            },
                            arguments,
                        ).0;
                        assert(result.scopes.len() == s.scopes.len() + 2);
                        assert(result.instances.len() == s.instances.len() + 1);
                        lemma_grow(s, bound);
                        lemma_call_wf(
                            bound,
                            ast,
                            Function::User {
                                declaration,
                                closure: s.scopes.len() as usize,
                                is_initializer,
                            },
                            arguments,
                        );
                    } else {
                        lemma_grow(
                            s,
                            State {
                                control: ControlView::Unwinding(
                                    crate::error::failure(
                                        Some(paren),
                                        crate::error::arity_mismatch(
                                            crate::function::arity_of(init, ast),
                                            arguments.len(),
                                        ),
                                    ),
                                ),
                                ..made
                            },
                        );
                    }
                },
                _ => {
                    lemma_grow(s, deliver(made, Value::Instance(instance)).0);
                },
            }
        },
        _ => {},
    }
}

/// Entering a block in a scope that exists keeps the state good.
pub proof fn lemma_enter_block_wf(s: State, stmt: usize, env: usize)
    requires
        state_wf(s),
        env < s.scopes.len(),
    ensures
        state_wf(crate::machine::enter_block(s, stmt, env).0),
{
}

/// Leaving a call keeps the state good.
pub proof fn lemma_finish_call_wf(
    s: State,
    previous: usize,
    closure: usize,
    is_initializer: bool,
    result: Value,
)
    requires
        state_wf(s),
        previous < s.scopes.len(),
        closure < s.scopes.len(),
        value_ok(result, sizes(s)),
    ensures
        state_wf(finish_call(s, previous, closure, is_initializer, result).0),
{
    lemma_lookup_at_ok(s, closure as int, 0, "this"@);
}

/// Declaring a class keeps the state good.
pub proof fn lemma_declare_class_wf(s: State, ast: &Ast, stmt: usize, superclass: Option<usize>)
    requires
        state_wf(s),
        superclass matches Some(parent) ==> parent < s.classes.len(),
        fits(declare_class(s, ast, stmt, superclass).0),
    ensures
        state_wf(declare_class(s, ast, stmt, superclass).0),
{
    if stmt < ast.stmts.len() {
        match ast.stmts[stmt as int] {
            crate::ast::Stmt::Class { name, methods, .. } => {
                let t = declare_class(s, ast, stmt, superclass).0;
                let closure = match superclass {
                    Some(_) => s.scopes.len() as usize,
                    None => s.env,
                };
                lemma_method_table_ok(ast, methods@, closure, methods.len() as nat, sizes(t));
                let scopes = match superclass {
                    Some(parent) => s.scopes.push(
                        ScopeView {
                            values: Map::empty().insert("super"@, Value::Class(parent)),
                            enclosing: Some(s.env),
                        },
                    ),
                    None => s.scopes,
                };
                let grown = State { scopes, classes: t.classes, ..s };
                lemma_grow(s, grown);
                assert(bindings_ok(grown.scopes[s.env as int].values, sizes(grown)));
            },
            _ => {},
        }
    }
}

/// Reading a property keeps the state good.
pub proof fn lemma_get_property_wf(s: State, name: Token, object: Value)
    requires
        state_wf(s),
        value_ok(object, sizes(s)),
        fits(get_property(s, name, object).0),
    ensures
        state_wf(get_property(s, name, object).0),
{
    match object {
        Value::Instance(instance) => {
            assert(bindings_ok(s.instances[instance as int].fields, sizes(s)));
            lemma_find_method_ok(s, s.instances[instance as int].class as int, name.lexeme@);
            match find_method(s.classes, s.instances[instance as int].class as int, name.lexeme@) {
                Some(Function::User { closure, .. }) => {
                    if !s.instances[instance as int].fields.contains_key(name.lexeme@) {
                        lemma_bound_wf(s, closure, object);
                    }
                },
                _ => {},
            }
        },
        _ => {},
    }
}

/// Finding a method through `super` keeps the state good.
pub proof fn lemma_super_method_wf(s: State, keyword: Token, method: Token)
    requires
        state_wf(s),
        fits(super_method(s, keyword, method).0),
    ensures
        state_wf(super_method(s, keyword, method).0),
{
    if s.locals.contains_key(keyword.key()) && s.locals[keyword.key()] > 0 {
        let distance = s.locals[keyword.key()];
        lemma_lookup_at_ok(s, s.env as int, distance as nat, "super"@);
        lemma_lookup_at_ok(s, s.env as int, (distance - 1) as nat, "this"@);
        match (
            lookup_at(s.scopes, s.env as int, distance as nat, "super"@),
            lookup_at(s.scopes, s.env as int, (distance - 1) as nat, "this"@),
        ) {
            (Some(Value::Class(superclass)), Some(object)) => {
                lemma_find_method_ok(s, superclass as int, method.lexeme@);
                match find_method(s.classes, superclass as int, method.lexeme@) {
                    Some(Function::User { closure, .. }) => {
                        lemma_bound_wf(s, closure, object);
                    },
                    _ => {},
                }
            },
            _ => {},
        }
    }
}

/// Reading a variable keeps the state good.
pub proof fn lemma_lookup_variable_wf(s: State, name: Token)
    requires
        state_wf(s),
    ensures
        state_wf(lookup_variable(s, name).0),
{
    if s.locals.contains_key(name.key()) {
        lemma_lookup_at_ok(s, s.env as int, s.locals[name.key()] as nat, name.lexeme@);
    } else {
        lemma_lookup_at_ok(s, 0, 0, name.lexeme@);
    }
}

/// Binding a name to a good value in a scope that exists keeps the state
/// good.
pub proof fn lemma_bind_wf(s: State, scope: int, name: Seq<char>, value: Value)
    requires
        state_wf(s),
        0 <= scope < s.scopes.len(),
        value_ok(value, sizes(s)),
    ensures
        state_wf(State { scopes: bind(s.scopes, scope, name, value), ..s }),
{
    let t = State { scopes: bind(s.scopes, scope, name, value), ..s };
    assert forall|i: int| 0 <= i < t.scopes.len() implies bindings_ok(
        (#[trigger] t.scopes[i]).values,
        sizes(t),
    ) by {
        assert(bindings_ok(s.scopes[i].values, sizes(s)));
    }
    assert forall|i: int| 0 < i < t.scopes.len() implies ((#[trigger] t.scopes[i]).enclosing matches Some(
        e,
    ) && e < i) by {
        assert(s.scopes[i].enclosing is Some);
    }
}

/// Assigning a good value to a variable keeps the state good.
pub proof fn lemma_write_variable_wf(s: State, name: Token, value: Value)
    requires
        state_wf(s),
        value_ok(value, sizes(s)),
    ensures
        state_wf(write_variable(s, name, value).0),
{
    if s.locals.contains_key(name.key()) {
        crate::environment::lemma_ancestor_in_range(s.scopes, s.env as int, s.locals[name.key()] as nat);
    } else {
        crate::environment::lemma_ancestor_in_range(s.scopes, 0, 0);
    }
    match crate::machine::assignment_target(s, name) {
        Some(target) => {
            lemma_bind_wf(s, target, name.lexeme@, value);
        },
        None => {},
    }
}

/// Starting on a statement keeps the state good.
pub proof fn lemma_execute_wf(s: State, ast: &Ast, stmt: usize)
    requires
        state_wf(s),
        fits(execute(s, ast, stmt).0),
    ensures
        state_wf(execute(s, ast, stmt).0),
{
    if stmt < ast.stmts.len() {
        match ast.stmts[stmt as int] {
            crate::ast::Stmt::Block(_) => {
                lemma_grow(s, execute(s, ast, stmt).0);
            },
            crate::ast::Stmt::Class { superclass, .. } => {
                if superclass is None {
                    lemma_declare_class_wf(s, ast, stmt, None);
                }
            },
            crate::ast::Stmt::Function { name, .. } => {
                lemma_bind_wf(
                    s,
                    s.env as int,
                    name.lexeme@,
                    Value::Callable(
                        Function::User { declaration: stmt, closure: s.env, is_initializer: false },
                    ),
                );
            },
            _ => {},
        }
    }
}

/// Starting on an expression keeps the state good.
pub proof fn lemma_evaluate_wf(s: State, ast: &Ast, expr: usize)
    requires
        state_wf(s),
        fits(evaluate(s, ast, expr).0),
    ensures
        state_wf(evaluate(s, ast, expr).0),
{
    if expr < ast.exprs.len() {
        match ast.exprs[expr as int] {
            crate::ast::Expr::Super { keyword, method } => {
                lemma_super_method_wf(s, keyword, method);
            },
            crate::ast::Expr::This(keyword) => {
                lemma_lookup_variable_wf(s, keyword);
            },
            crate::ast::Expr::Variable(name) => {
                lemma_lookup_variable_wf(s, name);
            },
            _ => {},
        }
    }
}

/// Handing a good value to a good frame keeps the state good.
pub proof fn lemma_resume_wf(s: State, ast: &Ast, frame: FrameView, value: Value)
    requires
        state_wf(s),
        frame_ok(frame, sizes(s)),
        value_ok(value, sizes(s)),
        fits(resume(s, ast, frame, value).0),
    ensures
        state_wf(resume(s, ast, frame, value).0),
{
    match frame {
        FrameView::Define { stmt } => {
            if stmt < ast.stmts.len() {
                match ast.stmts[stmt as int] {
                    crate::ast::Stmt::Var { name, .. } => {
                        lemma_bind_wf(s, s.env as int, name.lexeme@, value);
                    },
                    _ => {},
                }
            }
        },
        FrameView::Superclass { stmt } => {
            match value {
                Value::Class(parent) => {
                    lemma_declare_class_wf(s, ast, stmt, Some(parent));
                },
                _ => {},
            }
        },
        FrameView::Assign { expr } => {
            if expr < ast.exprs.len() {
                match ast.exprs[expr as int] {
                    crate::ast::Expr::Assign { name, .. } => {
                        lemma_write_variable_wf(s, name, value);
                    },
                    _ => {},
                }
            }
        },
        FrameView::Callee { expr } => {
            if expr < ast.exprs.len() {
                match ast.exprs[expr as int] {
                    crate::ast::Expr::Call { paren, arguments, .. } => {
                        if arguments.len() == 0 {
                            lemma_invoke_wf(s, ast, paren, value, Seq::empty());
                        }
                    },
                    _ => {},
                }
            }
        },
        FrameView::Argument { expr, callee, arguments: evaluated } => {
            if expr < ast.exprs.len() {
                match ast.exprs[expr as int] {
                    crate::ast::Expr::Call { paren, arguments, .. } => {
                        if !(evaluated.len() + 1 < arguments.len()) {
                            lemma_invoke_wf(s, ast, paren, callee, evaluated.push(value));
                        }
                    },
                    _ => {},
                }
            }
        },
        FrameView::GetObject { expr } => {
            if expr < ast.exprs.len() {
                match ast.exprs[expr as int] {
                    crate::ast::Expr::Get { name, .. } => {
                        lemma_get_property_wf(s, name, value);
                    },
                    _ => {},
                }
            }
        },
        FrameView::SetValue { expr, instance } => {
            if expr < ast.exprs.len() && instance < s.instances.len() {
                match ast.exprs[expr as int] {
                    crate::ast::Expr::SetProperty { name, .. } => {
                        let t = resume(s, ast, frame, value).0;
                        assert forall|i: int| 0 <= i < t.instances.len() implies (
                        #[trigger] t.instances[i]).class < t.classes.len() && bindings_ok(
                            t.instances[i].fields,
                            sizes(t),
                        ) by {
                            assert(bindings_ok(s.instances[i].fields, sizes(s)));
                        }
                    },
                    _ => {},
                }
            }
        },
        FrameView::Call { previous, closure, is_initializer } => {
            lemma_finish_call_wf(s, previous, closure, is_initializer, Value::Nil);
        },
        _ => {},
    }
}

/// An interruption carries, if anything, a value that is good.
pub open spec fn error_ok(error: InterpreterErrorView, n: Sizes) -> bool {
    error matches InterpreterErrorView::Return(value) ==> value_ok(value, n)
}

/// Taking an interruption one frame further keeps the state good.
pub proof fn lemma_unwind_wf(s: State, error: InterpreterErrorView)
    requires
        state_wf(s),
        error_ok(error, sizes(s)),
    ensures
        state_wf(unwind(s, error).0),
{
    if s.frames.len() > 0 {
        let rest = State { frames: s.frames.drop_last(), ..s };
        assert(frame_ok(s.frames.last(), sizes(s)));
        match (s.frames.last(), error) {
            (
                FrameView::Call { previous, closure, is_initializer },
                InterpreterErrorView::Return(value),
            ) => {
                lemma_finish_call_wf(rest, previous, closure, is_initializer, value);
            },
            _ => {},
        }
    }
}

/// Every step takes a good state to a good state, as long as the tables
/// stay within what an index can name.
pub proof fn lemma_step_wf(s: State, ast: &Ast, event: Event)
    requires
        state_wf(s),
        fits(step(s, ast, event).0),
    ensures
        state_wf(step(s, ast, event).0),
{
    let taken = State { control: ControlView::Idle, ..s };
    match s.control {
        ControlView::Execute(stmt) => {
            lemma_execute_wf(taken, ast, stmt);
        },
        ControlView::Evaluate(expr) => {
            lemma_evaluate_wf(taken, ast, expr);
        },
        ControlView::Deliver(value) => {
            if s.frames.len() > 0 {
                let rest = State { frames: s.frames.drop_last(), ..taken };
                assert(frame_ok(s.frames.last(), sizes(s)));
                lemma_resume_wf(rest, ast, s.frames.last(), value);
            }
        },
        ControlView::Unwinding(error) => {
            lemma_unwind_wf(taken, error);
        },
        _ => {},
    }
}

/// Loading a program into a good state gives a good state.
pub proof fn lemma_load_wf(s: State, program: Seq<usize>)
    requires
        state_wf(s),
    ensures
        state_wf(load(s, program)),
{
}

} // verus!
