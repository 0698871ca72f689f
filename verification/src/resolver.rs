//! Scope resolution: one pass over the syntax tree, before the program
//! runs, that finds for every reference to a local variable how many scopes
//! out its declaration lies, and reports what the program may not do
//! wherever it stands: declare a local twice, read a local in its own
//! initializer, return outside a function, return a value from an
//! initializer, use `this` outside a class or `super` outside a subclass,
//! or make a class its own superclass. An error does not end the pass.

use vstd::prelude::*;

use crate::ast::{Ast, Expr, Stmt};
use crate::interpreter::Interpreter;
use crate::lox::{parse_error, place_of, report_line, reported, Diagnostics, DiagnosticsView};
use crate::machine;
use crate::machine::State;
use crate::table::Table;
use crate::text::same_text;
use crate::token::Token;

verus! {

/// The kind of function whose body is being resolved.
#[derive(Clone, Copy, Debug, PartialEq, Eq, Structural)]
pub enum FunctionType {
    /// Not inside any function.
    Outside,
    Function,
    Method,
    Initializer,
}

/// The kind of class whose methods are being resolved.
#[derive(Clone, Copy, Debug, PartialEq, Eq, Structural)]
pub enum ClassType {
    /// Not inside any class.
    Outside,
    Class,
    Subclass,
}

/// The state of a pass, together with what it has produced so far.
pub ghost struct Resolution {
    /// The local scopes around the place that the pass has reached,
    /// innermost last. A name maps to whether its declaration is complete.
    pub scopes: Seq<Map<Seq<char>, bool>>,
    pub current_function: FunctionType,
    pub current_class: ClassType,
    /// The distances recorded so far.
    pub locals: Map<(Seq<char>, usize), usize>,
    /// The errors reported so far.
    pub diagnostics: DiagnosticsView,
}

/// Report an error at `token`.
pub open spec fn report(r: Resolution, token: Token, message: Seq<char>) -> Resolution {
    Resolution {
        diagnostics: reported(
            r.diagnostics,
            report_line(token.line as nat, place_of(token), message),
        ),
        ..r
    }
}

/// Enter a new innermost scope.
pub open spec fn begin_scope(r: Resolution) -> Resolution {
    Resolution { scopes: r.scopes.push(Map::empty()), ..r }
}

/// Leave the innermost scope.
pub open spec fn end_scope(r: Resolution) -> Resolution {
    if r.scopes.len() > 0 {
        Resolution { scopes: r.scopes.drop_last(), ..r }
    } else {
        r
    }
}

/// The scopes after `name` has been entered in the innermost one, if there
/// is a local scope at all.
pub open spec fn entered(
    scopes: Seq<Map<Seq<char>, bool>>,
    name: Seq<char>,
    ready: bool,
) -> Seq<Map<Seq<char>, bool>> {
    if scopes.len() > 0 {
        scopes.update(scopes.len() - 1, scopes.last().insert(name, ready))
    } else {
        scopes
    }
}

/// Enter `name` in the innermost scope.
pub open spec fn put(r: Resolution, name: Seq<char>, ready: bool) -> Resolution {
    Resolution { scopes: entered(r.scopes, name, ready), ..r }
}

/// Declare `name`: it exists from here on but may not be read yet. A second
/// declaration in the same local scope is an error.
pub open spec fn declare(r: Resolution, name: Token) -> Resolution {
    if r.scopes.len() > 0 && r.scopes.last().contains_key(name.lexeme@) {
        put(
            report(r, name, "Already a variable with this name in this scope."@),
            name.lexeme@,
            false,
        )
    } else {
        put(r, name.lexeme@, false)
    }
}

/// Complete the declaration of `name`.
pub open spec fn define(r: Resolution, name: Token) -> Resolution {
    put(r, name.lexeme@, true)
}

/// The number of scopes between the innermost scope and the nearest scope
/// that declares `name`: 0 when the innermost scope does, 1 when the scope
/// around it is the first that does, and so on. Nothing when no local scope
/// declares the name, which leaves it to the global scope.
pub open spec fn hops(scopes: Seq<Map<Seq<char>, bool>>, name: Seq<char>) -> Option<nat>
    decreases scopes.len(),
{
    if scopes.len() == 0 {
        None
    } else if scopes.last().contains_key(name) {
        Some(0)
    } else {
        match hops(scopes.drop_last(), name) {
            Some(distance) => Some(distance + 1),
            None => None,
        }
    }
}

/// Record the distance of the reference `name`, if a local scope declares
/// the name.
pub open spec fn resolve_local(r: Resolution, name: Token) -> Resolution {
    match hops(r.scopes, name.lexeme@) {
        Some(distance) => Resolution {
            locals: r.locals.insert(name.key(), distance as usize),
            ..r
        },
        None => r,
    }
}

/// Resolve expression `expr`.
pub open spec fn resolve_expression(r: Resolution, ast: &Ast, expr: usize) -> Resolution
    decreases expr, 0nat,
{
    if expr < ast.exprs.len() {
        match ast.exprs[expr as int] {
            Expr::Assign { name, value } => resolve_local(resolve_child(r, ast, value, expr), name),
            Expr::Binary { left, right, .. } => resolve_child(
                resolve_child(r, ast, left, expr),
                ast,
                right,
                expr,
            ),
            Expr::Call { callee, arguments, .. } => resolve_expressions(
                resolve_child(r, ast, callee, expr),
                ast,
                arguments@,
                arguments.len() as nat,
                expr,
            ),
            Expr::Get { object, .. } => resolve_child(r, ast, object, expr),
            Expr::Grouping(inner) => resolve_child(r, ast, inner, expr),
            Expr::Literal(_) => r,
            Expr::Logical { left, right, .. } => resolve_child(
                resolve_child(r, ast, left, expr),
                ast,
                right,
                expr,
            ),
            Expr::SetProperty { object, value, .. } => resolve_child(
                resolve_child(r, ast, value, expr),
                ast,
                object,
                expr,
            ),
            Expr::Super { keyword, .. } => if r.current_class == ClassType::Outside {
                resolve_local(report(r, keyword, "Can't use 'super' outside of a class."@), keyword)
            } else if r.current_class != ClassType::Subclass {
                resolve_local(
                    report(r, keyword, "Can't use 'super' in a class with no superclass."@),
                    keyword,
                )
            } else {
                resolve_local(r, keyword)
            },
            Expr::This(keyword) => if r.current_class == ClassType::Outside {
                report(r, keyword, "Can't use 'this' outside of a class."@)
            } else {
                resolve_local(r, keyword)
            },
            Expr::Unary { right, .. } => resolve_child(r, ast, right, expr),
            Expr::Variable(name) => if r.scopes.len() > 0 && r.scopes.last().contains_key(
                name.lexeme@,
            ) && !r.scopes.last()[name.lexeme@] {
                resolve_local(
                    report(r, name, "Can't read local variable in its own initializer."@),
                    name,
                )
            } else {
                resolve_local(r, name)
            },
        }
    } else {
        r
    }
}

/// Resolve `child`, a part of expression `parent`. A child comes before its
/// parent in the table; one that does not is passed over.
pub open spec fn resolve_child(r: Resolution, ast: &Ast, child: usize, parent: usize) -> Resolution
    decreases parent, 0nat, 0nat,
{
    if child < parent {
        resolve_expression(r, ast, child)
    } else {
        r
    }
}

/// Resolve the first `count` of the expressions `exprs`, parts of
/// expression `parent`, in order.
pub open spec fn resolve_expressions(
    r: Resolution,
    ast: &Ast,
    exprs: Seq<usize>,
    count: nat,
    parent: usize,
) -> Resolution
    decreases parent, 0nat, count,
{
    if count == 0 || count > exprs.len() {
        r
    } else {
        let before = resolve_expressions(r, ast, exprs, (count - 1) as nat, parent);
        if exprs[count - 1] < parent {
            resolve_expression(before, ast, exprs[count - 1])
        } else {
            before
        }
    }
}

/// Declare and define the first `count` of the parameters `params`.
pub open spec fn declare_parameters(r: Resolution, params: Seq<Token>, count: nat) -> Resolution
    decreases count,
{
    if count == 0 || count > params.len() {
        r
    } else {
        let before = declare_parameters(r, params, (count - 1) as nat);
        define(declare(before, params[count - 1]), params[count - 1])
    }
}

/// Resolve statement `stmt`.
pub open spec fn resolve_statement(r: Resolution, ast: &Ast, stmt: usize) -> Resolution
    decreases stmt, 2nat, 0nat,
{
    if stmt < ast.stmts.len() {
        match ast.stmts[stmt as int] {
            Stmt::Block(body) => end_scope(
                resolve_statements(begin_scope(r), ast, body@, body.len() as nat, stmt),
            ),
            Stmt::Class { name, superclass, methods } => {
                let named = define(
                    declare(Resolution { current_class: ClassType::Class, ..r }, name),
                    name,
                );
                let inside = match superclass {
                    Some(expr) => {
                        let checked = if inherits_itself(ast, name, expr) {
                            report(named, superclass_token(ast, name, expr), "A class can't inherit from itself."@)
                        } else {
                            named
                        };
                        put(
                            begin_scope(
                                resolve_expression(
                                    Resolution { current_class: ClassType::Subclass, ..checked },
                                    ast,
                                    expr,
                                ),
                            ),
                            "super"@,
                            true,
                        )
                    },
                    None => named,
                };
                let resolved = resolve_methods(
                    put(begin_scope(inside), "this"@, true),
                    ast,
                    methods@,
                    methods.len() as nat,
                    stmt,
                );
                let left = match superclass {
                    Some(_) => end_scope(end_scope(resolved)),
                    None => end_scope(resolved),
                };
                Resolution { current_class: r.current_class, ..left }
            },
            Stmt::Expression(expr) => resolve_expression(r, ast, expr),
            Stmt::Function { name, .. } => resolve_function(
                define(declare(r, name), name),
                ast,
                stmt,
                FunctionType::Function,
            ),
            Stmt::If { condition, then_branch, opt_else_branch } => {
                let first = resolve_nested(resolve_expression(r, ast, condition), ast, then_branch, stmt);
                match opt_else_branch {
                    Some(else_branch) => resolve_nested(first, ast, else_branch, stmt),
                    None => first,
                }
            },
            Stmt::Print(expr) => resolve_expression(r, ast, expr),
            Stmt::Return { keyword, value } => {
                let placed = if r.current_function == FunctionType::Outside {
                    report(r, keyword, "Can't return from top-level code."@)
                } else {
                    r
                };
                if machine::is_nil_literal(ast, value) {
                    placed
                } else if r.current_function == FunctionType::Initializer {
                    resolve_expression(
                        report(placed, keyword, "Can't return a value from an initializer."@),
                        ast,
                        value,
                    )
                } else {
                    resolve_expression(placed, ast, value)
                }
            },
            Stmt::Var { name, initializer } => {
                let declared = declare(r, name);
                if machine::is_nil_literal(ast, initializer) {
                    define(declared, name)
                } else {
                    define(resolve_expression(declared, ast, initializer), name)
                }
            },
            Stmt::While { condition, body } => resolve_nested(
                resolve_expression(r, ast, condition),
                ast,
                body,
                stmt,
            ),
        }
    } else {
        r
    }
}

/// Whether the superclass expression `expr` of the class `name` names the
/// class itself.
pub open spec fn inherits_itself(ast: &Ast, name: Token, expr: usize) -> bool {
    expr < ast.exprs.len() && (ast.exprs[expr as int] matches Expr::Variable(parent)
        && parent.lexeme@ == name.lexeme@)
}

/// The token at which an error of the superclass expression is reported.
pub open spec fn superclass_token(ast: &Ast, name: Token, expr: usize) -> Token {
    if expr < ast.exprs.len() {
        match ast.exprs[expr as int] {
            Expr::Variable(parent) => parent,
            _ => name,
        }
    } else {
        name
    }
}

/// Resolve `child`, a part of statement `parent`. A child comes before its
/// parent in the table; one that does not is passed over.
pub open spec fn resolve_nested(r: Resolution, ast: &Ast, child: usize, parent: usize) -> Resolution
    decreases parent, 1nat, 0nat,
{
    if child < parent {
        resolve_statement(r, ast, child)
    } else {
        r
    }
}

/// Resolve the first `count` of the statements `stmts`, parts of statement
/// `parent`, in order.
pub open spec fn resolve_statements(
    r: Resolution,
    ast: &Ast,
    stmts: Seq<usize>,
    count: nat,
    parent: usize,
) -> Resolution
    decreases parent, 0nat, count,
{
    if count == 0 || count > stmts.len() {
        r
    } else {
        let before = resolve_statements(r, ast, stmts, (count - 1) as nat, parent);
        if stmts[count - 1] < parent {
            resolve_statement(before, ast, stmts[count - 1])
        } else {
            before
        }
    }
}

/// Resolve the first `count` of the methods `methods` of class `parent`, in
/// order. A method named `init` is an initializer.
pub open spec fn resolve_methods(
    r: Resolution,
    ast: &Ast,
    methods: Seq<usize>,
    count: nat,
    parent: usize,
) -> Resolution
    decreases parent, 0nat, count,
{
    if count == 0 || count > methods.len() {
        r
    } else {
        let before = resolve_methods(r, ast, methods, (count - 1) as nat, parent);
        if methods[count - 1] < parent {
            resolve_function(
                before,
                ast,
                methods[count - 1],
                if machine::function_name(ast, methods[count - 1]) == "init"@ {
                    FunctionType::Initializer
                } else {
                    FunctionType::Method
                },
            )
        } else {
            before
        }
    }
}

/// Resolve the parameters and the body of function declaration `stmt` in a
/// scope of their own, as a function of kind `kind`. The kind of the
/// function around it comes back afterwards.
pub open spec fn resolve_function(
    r: Resolution,
    ast: &Ast,
    stmt: usize,
    kind: FunctionType,
) -> Resolution
    decreases stmt, 1nat, 0nat,
{
    let params = machine::parameters(ast, stmt);
    let body = machine::children(ast, stmt);
    let inside = resolve_statements(
        declare_parameters(
            begin_scope(Resolution { current_function: kind, ..r }),
            params,
            params.len(),
        ),
        ast,
        body,
        body.len(),
        stmt,
    );
    Resolution { current_function: r.current_function, ..end_scope(inside) }
}

/// Resolve the statements `stmts` of a program, in order.
pub open spec fn resolve_program(r: Resolution, ast: &Ast, stmts: Seq<usize>) -> Resolution {
    resolve_statements(r, ast, stmts, stmts.len(), ast.stmts.len() as usize)
}

/// The pass. It keeps the local scopes around the place it has reached and
/// the kinds of the function and the class around that place.
pub struct Resolver {
    scopes: Vec<Table<bool>>,
    current_function: FunctionType,
    current_class: ClassType,
}

/// What a pass holds.
pub ghost struct ResolverView {
    pub scopes: Seq<Map<Seq<char>, bool>>,
    pub current_function: FunctionType,
    pub current_class: ClassType,
}

impl View for Resolver {
    type V = ResolverView;

    closed spec fn view(&self) -> ResolverView {
        ResolverView {
            scopes: self.scopes@.map_values(|scope: Table<bool>| scope@),
            current_function: self.current_function,
            current_class: self.current_class,
        }
    }
}

/// The state of a pass together with the table of distances that it fills
/// and the collector that it reports to.
pub open spec fn resolution(
    resolver: ResolverView,
    interpreter: State,
    diagnostics: DiagnosticsView,
) -> Resolution {
    Resolution {
        scopes: resolver.scopes,
        current_function: resolver.current_function,
        current_class: resolver.current_class,
        locals: interpreter.locals,
        diagnostics,
    }
}

/// The pass has changed nothing of the interpreter but the distances.
pub open spec fn records_only(before: State, after: State) -> bool {
    after == (State { locals: after.locals, ..before })
}

/// A reference inside nested scopes resolves at the distance of the nearest
/// scope that declares its name: when the scope `distance` places out from
/// the innermost one declares `name` and no scope further in does, the
/// reference is `distance` hops away, whatever the scopes further out
/// declare.
pub proof fn lemma_hops_nearest(scopes: Seq<Map<Seq<char>, bool>>, name: Seq<char>, distance: nat)
    requires
        distance < scopes.len(),
        scopes[scopes.len() - 1 - distance].contains_key(name),
        forall|j: int|
            scopes.len() - 1 - distance < j < scopes.len() ==> !(#[trigger] scopes[j]).contains_key(
                name,
            ),
    ensures
        hops(scopes, name) == Some(distance),
{
    let i = scopes.len() - distance;
    lemma_hops_prefix(scopes, name, i);
    assert(scopes.subrange(0, i).last() == scopes[i - 1]);
}

/// A name that no local scope declares is left to the global scope.
pub proof fn lemma_hops_global(scopes: Seq<Map<Seq<char>, bool>>, name: Seq<char>)
    requires
        forall|j: int| 0 <= j < scopes.len() ==> !(#[trigger] scopes[j]).contains_key(name),
    ensures
        hops(scopes, name) is None,
{
    lemma_hops_prefix(scopes, name, 0);
    assert(scopes.subrange(0, 0).len() == 0);
}

/// A scope further out adds one hop.
proof fn lemma_hops_prefix(scopes: Seq<Map<Seq<char>, bool>>, name: Seq<char>, i: int)
    requires
        0 <= i <= scopes.len(),
        forall|j: int| i <= j < scopes.len() ==> !(#[trigger] scopes[j]).contains_key(name),
    ensures
        hops(scopes, name) == match hops(scopes.subrange(0, i), name) {
            Some(distance) => Some((distance + scopes.len() - i) as nat),
            None => None,
        },
    decreases scopes.len() - i,
{
    if i == scopes.len() {
        assert(scopes.subrange(0, i) =~= scopes);
    } else {
        let shorter = scopes.drop_last();
        assert(shorter.subrange(0, i) =~= scopes.subrange(0, i));
        assert(!scopes[scopes.len() - 1].contains_key(name));
        assert forall|j: int| i <= j < shorter.len() implies !(#[trigger] shorter[j]).contains_key(
            name,
        ) by {
            assert(shorter[j] == scopes[j]);
        }
        lemma_hops_prefix(shorter, name, i);
    }
}

impl Resolver {
    /// A pass that stands at the top level of a program: no local scope,
    /// no function and no class around it.
    pub fn new() -> (resolver: Self)
        ensures
            resolver@ == (ResolverView {
                scopes: Seq::empty(),
                current_function: FunctionType::Outside,
                current_class: ClassType::Outside,
            }),
    {
        let resolver = Resolver {
            scopes: Vec::new(),
            current_function: FunctionType::Outside,
            current_class: ClassType::Outside,
        };
        assert(resolver@.scopes =~= Seq::empty());
        resolver
    }

    fn begin_scope(&mut self)
        ensures
            final(self)@ == (ResolverView {
                scopes: old(self)@.scopes.push(Map::empty()),
                ..old(self)@
            }),
    {
        self.scopes.push(Table::new());
        assert(self@.scopes =~= old(self)@.scopes.push(Map::empty()));
    }

    fn end_scope(&mut self)
        ensures
            final(self)@ == if old(self)@.scopes.len() > 0 {
                ResolverView { scopes: old(self)@.scopes.drop_last(), ..old(self)@ }
            } else {
                old(self)@
            },
    {
        let popped = self.scopes.pop();
        assert(popped is Some ==> self@.scopes =~= old(self)@.scopes.drop_last());
    }

    /// Enters `name` in the innermost scope, if there is a local scope.
    fn put(&mut self, name: &str, ready: bool)
        ensures
            final(self)@ == (ResolverView {
                scopes: entered(old(self)@.scopes, name@, ready),
                ..old(self)@
            }),
    {
        let depth = self.scopes.len();
        if depth > 0 {
            assert(self@.scopes[depth - 1] == self.scopes[depth - 1]@);
            self.scopes[depth - 1].insert(String::from_str(name), ready);
            assert(self@.scopes =~= entered(old(self)@.scopes, name@, ready));
        }
    }

    /// What the innermost scope says of `name`: nothing, declared (false)
    /// or defined (true).
    fn innermost(&self, name: &str) -> (state: Option<bool>)
        ensures
            state == if self@.scopes.len() > 0 && self@.scopes.last().contains_key(name@) {
                Some(self@.scopes.last()[name@])
            } else {
                None
            },
    {
        let depth = self.scopes.len();
        if depth > 0 {
            assert(self@.scopes[depth - 1] == self.scopes[depth - 1]@);
            match self.scopes[depth - 1].get(name) {
                Some(ready) => Some(*ready),
                None => None,
            }
        } else {
            None
        }
    }

    fn declare(&mut self, diagnostics: &mut Diagnostics, name: &Token)
        ensures
            final(self)@ == (ResolverView {
                scopes: entered(old(self)@.scopes, name.lexeme@, false),
                ..old(self)@
            }),
            final(diagnostics)@ == if old(self)@.scopes.len() > 0 && old(
                self,
            )@.scopes.last().contains_key(name.lexeme@) {
                reported(
                    old(diagnostics)@,
                    report_line(
                        name.line as nat,
                        place_of(*name),
                        "Already a variable with this name in this scope."@,
                    ),
                )
            } else {
                old(diagnostics)@
            },
    {
        if self.innermost(name.lexeme.as_str()).is_some() {
            parse_error(diagnostics, name, "Already a variable with this name in this scope.");
        }
        self.put(name.lexeme.as_str(), false);
    }

    fn define(&mut self, name: &Token)
        ensures
            final(self)@ == (ResolverView {
                scopes: entered(old(self)@.scopes, name.lexeme@, true),
                ..old(self)@
            }),
    {
        self.put(name.lexeme.as_str(), true);
    }

    /// Records how many scopes out from the innermost one the nearest
    /// declaration of `name` lies, if a local scope declares the name.
    fn resolve_local(&self, interpreter: &mut Interpreter, name: &Token)
        ensures
            records_only(old(interpreter)@, final(interpreter)@),
            final(interpreter)@.locals == match hops(self@.scopes, name.lexeme@) {
                Some(distance) => old(interpreter)@.locals.insert(name.key(), distance as usize),
                None => old(interpreter)@.locals,
            },
    {
        let depth = self.scopes.len();
        let mut i = depth;
        while i > 0
            invariant
                depth == self.scopes.len(),
                i <= depth,
                interpreter@ == old(interpreter)@,
                forall|j: int|
                    i <= j < depth ==> !(#[trigger] self@.scopes[j]).contains_key(name.lexeme@),
            decreases i,
        {
            i = i - 1;
            assert(self@.scopes[i as int] == self.scopes[i as int]@);
            if self.scopes[i].contains_key(name.lexeme.as_str()) {
                proof {
                    lemma_hops_prefix(self@.scopes, name.lexeme@, i + 1);
                    assert(self@.scopes.subrange(0, i + 1).last() == self@.scopes[i as int]);
                }
                interpreter.resolve(name, depth - 1 - i);
                return ;
            }
        }
        proof {
            lemma_hops_prefix(self@.scopes, name.lexeme@, 0);
            assert(self@.scopes.subrange(0, 0).len() == 0);
        }
    }
}


/// Whether the superclass expression `expr` of the class `name` names the
/// class itself, and the token at which that is reported.
fn superclass_check<'a>(ast: &'a Ast, name: &'a Token, expr: usize) -> (checked: (bool, &'a Token))
    ensures
        checked.0 == inherits_itself(ast, *name, expr),
        *checked.1 == superclass_token(ast, *name, expr),
{
    if expr < ast.exprs.len() {
        match &ast.exprs[expr] {
            Expr::Variable(parent) => (
                parent.lexeme == name.lexeme,
                parent,
            ),
            _ => (false, name),
        }
    } else {
        (false, name)
    }
}

/// Whether function declaration `stmt` is named `init`.
fn is_initializer(ast: &Ast, stmt: usize) -> (init: bool)
    ensures
        init == (machine::function_name(ast, stmt) == "init"@),
{
    if stmt < ast.stmts.len() {
        match &ast.stmts[stmt] {
            Stmt::Function { name, .. } => same_text(name.lexeme.as_str(), "init"),
            _ => {
                proof {
                    reveal_strlit("init");
                    assert("init"@.len() == 4);
                }
                false
            },
        }
    } else {
        proof {
            reveal_strlit("init");
            assert("init"@.len() == 4);
        }
        false
    }
}

impl Resolver {
    /// Resolves the statements `stmts` of a program, in order: records in
    /// `interpreter` the distance of every reference to a local variable
    /// and reports to `diagnostics` every error that it finds. Nothing else
    /// of the interpreter changes.
    pub fn resolve(
        &mut self,
        interpreter: &mut Interpreter,
        diagnostics: &mut Diagnostics,
        ast: &Ast,
        stmts: &Vec<usize>,
    )
        ensures
            records_only(old(interpreter)@, final(interpreter)@),
            resolution(final(self)@, final(interpreter)@, final(diagnostics)@) == resolve_program(
                resolution(old(self)@, old(interpreter)@, old(diagnostics)@),
                ast,
                stmts@,
            ),
    {
        self.resolve_statements(interpreter, diagnostics, ast, stmts, ast.stmts.len());
    }

    /// Resolves the statements `stmts`, parts of statement `parent`.
    fn resolve_statements(
        &mut self,
        interpreter: &mut Interpreter,
        diagnostics: &mut Diagnostics,
        ast: &Ast,
        stmts: &Vec<usize>,
        parent: usize,
    )
        ensures
            records_only(old(interpreter)@, final(interpreter)@),
            resolution(final(self)@, final(interpreter)@, final(diagnostics)@)
                == resolve_statements(
                resolution(old(self)@, old(interpreter)@, old(diagnostics)@),
                ast,
                stmts@,
                stmts.len() as nat,
                parent,
            ),
        decreases parent, 0nat, stmts.len() + 1,
    {
        let mut i: usize = 0;
        while i < stmts.len()
            invariant
                i <= stmts.len(),
                records_only(old(interpreter)@, interpreter@),
                resolution(self@, interpreter@, diagnostics@) == resolve_statements(
                    resolution(old(self)@, old(interpreter)@, old(diagnostics)@),
                    ast,
                    stmts@,
                    i as nat,
                    parent,
                ),
            decreases stmts.len() - i,
        {
            if stmts[i] < parent {
                self.resolve_statement(interpreter, diagnostics, ast, stmts[i]);
            }
            i = i + 1;
        }
    }

    /// Resolves `child`, a part of statement `parent`.
    fn resolve_nested(
        &mut self,
        interpreter: &mut Interpreter,
        diagnostics: &mut Diagnostics,
        ast: &Ast,
        child: usize,
        parent: usize,
    )
        ensures
            records_only(old(interpreter)@, final(interpreter)@),
            resolution(final(self)@, final(interpreter)@, final(diagnostics)@) == resolve_nested(
                resolution(old(self)@, old(interpreter)@, old(diagnostics)@),
                ast,
                child,
                parent,
            ),
        decreases parent, 1nat, 0nat,
    {
        if child < parent {
            self.resolve_statement(interpreter, diagnostics, ast, child);
        }
    }

    /// Resolves the parameters and the body of function declaration `stmt`.
    fn resolve_function(
        &mut self,
        interpreter: &mut Interpreter,
        diagnostics: &mut Diagnostics,
        ast: &Ast,
        stmt: usize,
        kind: FunctionType,
    )
        ensures
            records_only(old(interpreter)@, final(interpreter)@),
            resolution(final(self)@, final(interpreter)@, final(diagnostics)@) == resolve_function(
                resolution(old(self)@, old(interpreter)@, old(diagnostics)@),
                ast,
                stmt,
                kind,
            ),
        decreases stmt, 1nat, 0nat,
    {
        let enclosing = self.current_function;
        self.current_function = kind;
        self.begin_scope();
        let ghost begun = resolution(self@, interpreter@, diagnostics@);
        if stmt < ast.stmts.len() {
            match &ast.stmts[stmt] {
                Stmt::Function { params, body, .. } => {
                    let mut i: usize = 0;
                    while i < params.len()
                        invariant
                            i <= params.len(),
                            interpreter@ == old(interpreter)@,
                            resolution(self@, interpreter@, diagnostics@) == declare_parameters(
                                begun,
                                params@,
                                i as nat,
                            ),
                        decreases params.len() - i,
                    {
                        self.declare(diagnostics, &params[i]);
                        self.define(&params[i]);
                        i = i + 1;
                    }
                    self.resolve_statements(interpreter, diagnostics, ast, body, stmt);
                },
                Stmt::Block(body) => {
                    self.resolve_statements(interpreter, diagnostics, ast, body, stmt);
                },
                _ => {},
            }
        }
        self.end_scope();
        self.current_function = enclosing;
    }

    /// Resolves the methods `methods` of class `parent`.
    fn resolve_methods(
        &mut self,
        interpreter: &mut Interpreter,
        diagnostics: &mut Diagnostics,
        ast: &Ast,
        methods: &Vec<usize>,
        parent: usize,
    )
        ensures
            records_only(old(interpreter)@, final(interpreter)@),
            resolution(final(self)@, final(interpreter)@, final(diagnostics)@) == resolve_methods(
                resolution(old(self)@, old(interpreter)@, old(diagnostics)@),
                ast,
                methods@,
                methods.len() as nat,
                parent,
            ),
        decreases parent, 0nat, methods.len() + 1,
    {
        let mut i: usize = 0;
        while i < methods.len()
            invariant
                i <= methods.len(),
                records_only(old(interpreter)@, interpreter@),
                resolution(self@, interpreter@, diagnostics@) == resolve_methods(
                    resolution(old(self)@, old(interpreter)@, old(diagnostics)@),
                    ast,
                    methods@,
                    i as nat,
                    parent,
                ),
            decreases methods.len() - i,
        {
            let method = methods[i];
            if method < parent {
                let kind = if is_initializer(ast, method) {
                    FunctionType::Initializer
                } else {
                    FunctionType::Method
                };
                self.resolve_function(interpreter, diagnostics, ast, method, kind);
            }
            i = i + 1;
        }
    }

    /// Resolves statement `stmt`.
    fn resolve_statement(
        &mut self,
        interpreter: &mut Interpreter,
        diagnostics: &mut Diagnostics,
        ast: &Ast,
        stmt: usize,
    )
        ensures
            records_only(old(interpreter)@, final(interpreter)@),
            resolution(final(self)@, final(interpreter)@, final(diagnostics)@) == resolve_statement(
                resolution(old(self)@, old(interpreter)@, old(diagnostics)@),
                ast,
                stmt,
            ),
        decreases stmt, 2nat, 0nat,
    {
        if stmt >= ast.stmts.len() {
            return ;
        }
        match &ast.stmts[stmt] {
            Stmt::Block(body) => {
                self.begin_scope();
                self.resolve_statements(interpreter, diagnostics, ast, body, stmt);
                self.end_scope();
            },
            Stmt::Class { name, superclass, methods } => {
                let enclosing = self.current_class;
                self.current_class = ClassType::Class;
                self.declare(diagnostics, name);
                self.define(name);
                match superclass {
                    Some(expr) => {
                        let (itself, token) = superclass_check(ast, name, *expr);
                        if itself {
                            parse_error(diagnostics, token, "A class can't inherit from itself.");
                        }
                        self.current_class = ClassType::Subclass;
                        self.resolve_expression(interpreter, diagnostics, ast, *expr);
                        self.begin_scope();
                        self.put("super", true);
                    },
                    None => {},
                }
                self.begin_scope();
                self.put("this", true);
                self.resolve_methods(interpreter, diagnostics, ast, methods, stmt);
                self.end_scope();
                if superclass.is_some() {
                    self.end_scope();
                }
                self.current_class = enclosing;
            },
            Stmt::Expression(expr) => {
                self.resolve_expression(interpreter, diagnostics, ast, *expr);
            },
            Stmt::Function { name, .. } => {
                self.declare(diagnostics, name);
                self.define(name);
                self.resolve_function(interpreter, diagnostics, ast, stmt, FunctionType::Function);
            },
            Stmt::If { condition, then_branch, opt_else_branch } => {
                self.resolve_expression(interpreter, diagnostics, ast, *condition);
                self.resolve_nested(interpreter, diagnostics, ast, *then_branch, stmt);
                match opt_else_branch {
                    Some(else_branch) => {
                        self.resolve_nested(interpreter, diagnostics, ast, *else_branch, stmt);
                    },
                    None => {},
                }
            },
            Stmt::Print(expr) => {
                self.resolve_expression(interpreter, diagnostics, ast, *expr);
            },
            Stmt::Return { keyword, value } => {
                let kind = self.current_function;
                if kind == FunctionType::Outside {
                    parse_error(diagnostics, keyword, "Can't return from top-level code.");
                }
                if !crate::interpreter::is_nil_literal(ast, *value) {
                    if kind == FunctionType::Initializer {
                        parse_error(diagnostics, keyword, "Can't return a value from an initializer.");
                    }
                    self.resolve_expression(interpreter, diagnostics, ast, *value);
                }
            },
            Stmt::Var { name, initializer } => {
                self.declare(diagnostics, name);
                if !crate::interpreter::is_nil_literal(ast, *initializer) {
                    self.resolve_expression(interpreter, diagnostics, ast, *initializer);
                }
                self.define(name);
            },
            Stmt::While { condition, body } => {
                self.resolve_expression(interpreter, diagnostics, ast, *condition);
                self.resolve_nested(interpreter, diagnostics, ast, *body, stmt);
            },
        }
    }

    /// Resolves `child`, a part of expression `parent`.
    fn resolve_child(
        &mut self,
        interpreter: &mut Interpreter,
        diagnostics: &mut Diagnostics,
        ast: &Ast,
        child: usize,
        parent: usize,
    )
        ensures
            records_only(old(interpreter)@, final(interpreter)@),
            resolution(final(self)@, final(interpreter)@, final(diagnostics)@) == resolve_child(
                resolution(old(self)@, old(interpreter)@, old(diagnostics)@),
                ast,
                child,
                parent,
            ),
        decreases parent, 0nat, 0nat,
    {
        if child < parent {
            self.resolve_expression(interpreter, diagnostics, ast, child);
        }
    }

    /// Resolves expression `expr`.
    fn resolve_expression(
        &mut self,
        interpreter: &mut Interpreter,
        diagnostics: &mut Diagnostics,
        ast: &Ast,
        expr: usize,
    )
        ensures
            records_only(old(interpreter)@, final(interpreter)@),
            resolution(final(self)@, final(interpreter)@, final(diagnostics)@)
                == resolve_expression(
                resolution(old(self)@, old(interpreter)@, old(diagnostics)@),
                ast,
                expr,
            ),
        decreases expr, 0nat, 1nat,
    {
        if expr >= ast.exprs.len() {
            return ;
        }
        match &ast.exprs[expr] {
            Expr::Assign { name, value } => {
                self.resolve_child(interpreter, diagnostics, ast, *value, expr);
                self.resolve_local(interpreter, name);
            },
            Expr::Binary { left, right, .. } => {
                self.resolve_child(interpreter, diagnostics, ast, *left, expr);
                self.resolve_child(interpreter, diagnostics, ast, *right, expr);
            },
            Expr::Call { callee, arguments, .. } => {
                self.resolve_child(interpreter, diagnostics, ast, *callee, expr);
                let ghost start = resolution(self@, interpreter@, diagnostics@);
                let mut i: usize = 0;
                while i < arguments.len()
                    invariant
                        i <= arguments.len(),
                        records_only(old(interpreter)@, interpreter@),
                        resolution(self@, interpreter@, diagnostics@) == resolve_expressions(
                            start,
                            ast,
                            arguments@,
                            i as nat,
                            expr,
                        ),
                    decreases arguments.len() - i,
                {
                    if arguments[i] < expr {
                        self.resolve_expression(interpreter, diagnostics, ast, arguments[i]);
                    }
                    i = i + 1;
                }
            },
            Expr::Get { object, .. } => {
                self.resolve_child(interpreter, diagnostics, ast, *object, expr);
            },
            Expr::Grouping(inner) => {
                self.resolve_child(interpreter, diagnostics, ast, *inner, expr);
            },
            Expr::Literal(_) => {},
            Expr::Logical { left, right, .. } => {
                self.resolve_child(interpreter, diagnostics, ast, *left, expr);
                self.resolve_child(interpreter, diagnostics, ast, *right, expr);
            },
            Expr::SetProperty { object, value, .. } => {
                self.resolve_child(interpreter, diagnostics, ast, *value, expr);
                self.resolve_child(interpreter, diagnostics, ast, *object, expr);
            },
            Expr::Super { keyword, .. } => {
                if self.current_class == ClassType::Outside {
                    parse_error(diagnostics, keyword, "Can't use 'super' outside of a class.");
                } else if self.current_class != ClassType::Subclass {
                    parse_error(
                        diagnostics,
                        keyword,
                        "Can't use 'super' in a class with no superclass.",
                    );
                }
                self.resolve_local(interpreter, keyword);
            },
            Expr::This(keyword) => {
                if self.current_class == ClassType::Outside {
                    parse_error(diagnostics, keyword, "Can't use 'this' outside of a class.");
                } else {
                    self.resolve_local(interpreter, keyword);
                }
            },
            Expr::Unary { right, .. } => {
                self.resolve_child(interpreter, diagnostics, ast, *right, expr);
            },
            Expr::Variable(name) => {
                match self.innermost(name.lexeme.as_str()) {
                    Some(false) => {
                        parse_error(
                            diagnostics,
                            name,
                            "Can't read local variable in its own initializer.",
                        );
                    },
                    _ => {},
                }
                self.resolve_local(interpreter, name);
            },
        }
    }
}

} // verus!
