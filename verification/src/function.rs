//! Callable values: functions of the host and functions declared in a
//! program, each of the latter paired with the scope it was declared in.

use vstd::prelude::*;

use crate::ast::{Ast, Stmt};
use crate::environment::{Environment, ScopeView};
use crate::lox_type::LoxType;

verus! {

/// The functions that the host provides.
#[derive(Clone, Copy, Debug, PartialEq, Eq, Structural)]
pub enum NativeFunction {
    /// The time in milliseconds since the Unix epoch.
    Clock,
}

/// A callable value. It is a small handle and is copied freely: two handles
/// are the same function when they name the same declaration and the same
/// captured scope.
#[derive(Clone, Copy, Debug, PartialEq, Eq, Structural)]
pub enum Function {
    Native {
        arity: usize,
        body: NativeFunction,
    },
    User {
        /// The `Stmt::Function` node that declares name, parameters and body.
        declaration: usize,
        /// The scope in which the declaration was executed.
        closure: usize,
        is_initializer: bool,
    },
}

impl View for Function {
    type V = Function;

    open spec fn view(&self) -> Function {
        *self
    }
}

/// The number of parameters that `function` expects.
pub open spec fn arity_of(function: Function, ast: &Ast) -> nat {
    match function {
        Function::Native { arity, .. } => arity as nat,
        Function::User { declaration, .. } => if declaration < ast.stmts.len() {
            match ast.stmts[declaration as int] {
                Stmt::Function { params, .. } => params.len() as nat,
                _ => 0,
            }
        } else {
            0
        },
    }
}

/// The scopes after `function` has been bound to `instance`: one more scope,
/// inside the function's own captured scope, that binds `this`.
pub open spec fn bound_scopes(
    scopes: Seq<ScopeView>,
    closure: usize,
    instance: crate::lox_type::Value,
) -> Seq<ScopeView> {
    scopes.push(
        ScopeView { values: Map::empty().insert("this"@, instance), enclosing: Some(closure) },
    )
}

impl Function {
    /// The number of arguments that a call must pass.
    pub fn arity(&self, ast: &Ast) -> (count: usize)
        ensures
            count == arity_of(*self, ast),
    {
        match self {
            Function::Native { arity, .. } => *arity,
            Function::User { declaration, .. } => {
                if *declaration < ast.stmts.len() {
                    match &ast.stmts[*declaration] {
                        Stmt::Function { params, .. } => params.len(),
                        _ => 0,
                    }
                } else {
                    0
                }
            },
        }
    }

    /// The method `self` with `instance` as its receiver: a new function
    /// with the same declaration, whose captured scope is a new scope that
    /// binds `this` to `instance` and lies inside the scope that `self`
    /// captured. `self` is left as it is.
    pub fn bind(&self, environment: &mut Environment, instance: LoxType) -> (method: Function)
        requires
            old(environment).wf(),
            *self matches Function::User { closure, .. } && closure < old(environment)@.len(),
        ensures
            final(environment).wf(),
            *self matches Function::User { declaration, closure, is_initializer } && method == (
            Function::User {
                declaration,
                closure: old(environment)@.len() as usize,
                is_initializer,
            }) && final(environment)@ == bound_scopes(old(environment)@, closure, instance@),
    {
        match self {
            Function::User { declaration, closure, is_initializer } => {
                let scope = environment.with_enclosing(*closure);
                environment.define(scope, "this", instance);
                assert(environment@ =~= bound_scopes(old(environment)@, *closure, instance@));
                Function::User {
                    declaration: *declaration,
                    closure: scope,
                    is_initializer: *is_initializer,
                }
            },
            Function::Native { .. } => *self,
        }
    }
}

} // verus!
