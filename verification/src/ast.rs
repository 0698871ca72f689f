//! The syntax tree. Its nodes live in two tables, one of expressions and one
//! of statements, and refer to their children by index. A child is always
//! added before its parent, so an index only ever points backwards.

use vstd::prelude::*;

use crate::lox_type::{LoxType, Value};
use crate::token::Token;
use crate::token_type::TokenType;

verus! {

/// A statement. Statements and expressions inside it are named by their
/// index in the tree.
#[derive(Debug)]
#[allow(inconsistent_fields)]
pub enum Stmt {
    Block(Vec<usize>),
    Class { name: Token, superclass: Option<usize>, methods: Vec<usize> },
    Expression(usize),
    Function { name: Token, params: Vec<Token>, body: Vec<usize> },
    If { condition: usize, then_branch: usize, opt_else_branch: Option<usize> },
    Print(usize),
    Return { keyword: Token, value: usize },
    Var { name: Token, initializer: usize },
    While { condition: usize, body: usize },
}

/// An expression. Expressions inside it are named by their index in the
/// tree.
#[derive(Debug)]
pub enum Expr {
    Assign { name: Token, value: usize },
    Binary { left: usize, operator: Token, right: usize },
    Call { callee: usize, paren: Token, arguments: Vec<usize> },
    Get { object: usize, name: Token },
    Grouping(usize),
    Literal(LoxType),
    Logical { left: usize, operator: Token, right: usize },
    /// A write to a property (`object.name = value`).
    SetProperty { object: usize, name: Token, value: usize },
    Super { keyword: Token, method: Token },
    This(Token),
    Unary { operator: Token, right: usize },
    Variable(Token),
}

/// What a statement holds.
#[allow(inconsistent_fields)]
pub ghost enum StmtView {
    Block(Seq<usize>),
    Class { name: Token, superclass: Option<usize>, methods: Seq<usize> },
    Expression(usize),
    Function { name: Token, params: Seq<Token>, body: Seq<usize> },
    If { condition: usize, then_branch: usize, opt_else_branch: Option<usize> },
    Print(usize),
    Return { keyword: Token, value: usize },
    Var { name: Token, initializer: usize },
    While { condition: usize, body: usize },
}

impl View for Stmt {
    type V = StmtView;

    open spec fn view(&self) -> StmtView {
        match self {
            Stmt::Block(body) => StmtView::Block(body@),
            Stmt::Class { name, superclass, methods } => StmtView::Class {
                name: *name,
                superclass: *superclass,
                methods: methods@,
            },
            Stmt::Expression(expr) => StmtView::Expression(*expr),
            Stmt::Function { name, params, body } => StmtView::Function {
                name: *name,
                params: params@,
                body: body@,
            },
            Stmt::If { condition, then_branch, opt_else_branch } => StmtView::If {
                condition: *condition,
                then_branch: *then_branch,
                opt_else_branch: *opt_else_branch,
            },
            Stmt::Print(expr) => StmtView::Print(*expr),
            Stmt::Return { keyword, value } => StmtView::Return { keyword: *keyword, value: *value },
            Stmt::Var { name, initializer } => StmtView::Var {
                name: *name,
                initializer: *initializer,
            },
            Stmt::While { condition, body } => StmtView::While {
                condition: *condition,
                body: *body,
            },
        }
    }
}

/// What an expression holds.
pub ghost enum ExprView {
    Assign { name: Token, value: usize },
    Binary { left: usize, operator: Token, right: usize },
    Call { callee: usize, paren: Token, arguments: Seq<usize> },
    Get { object: usize, name: Token },
    Grouping(usize),
    Literal(LoxType),
    Logical { left: usize, operator: Token, right: usize },
    SetProperty { object: usize, name: Token, value: usize },
    Super { keyword: Token, method: Token },
    This(Token),
    Unary { operator: Token, right: usize },
    Variable(Token),
}

impl View for Expr {
    type V = ExprView;

    open spec fn view(&self) -> ExprView {
        match self {
            Expr::Assign { name, value } => ExprView::Assign { name: *name, value: *value },
            Expr::Binary { left, operator, right } => ExprView::Binary {
                left: *left,
                operator: *operator,
                right: *right,
            },
            Expr::Call { callee, paren, arguments } => ExprView::Call {
                callee: *callee,
                paren: *paren,
                arguments: arguments@,
            },
            Expr::Get { object, name } => ExprView::Get { object: *object, name: *name },
            Expr::Grouping(inner) => ExprView::Grouping(*inner),
            Expr::Literal(value) => ExprView::Literal(*value),
            Expr::Logical { left, operator, right } => ExprView::Logical {
                left: *left,
                operator: *operator,
                right: *right,
            },
            Expr::SetProperty { object, name, value } => ExprView::SetProperty {
                object: *object,
                name: *name,
                value: *value,
            },
            Expr::Super { keyword, method } => ExprView::Super {
                keyword: *keyword,
                method: *method,
            },
            Expr::This(keyword) => ExprView::This(*keyword),
            Expr::Unary { operator, right } => ExprView::Unary {
                operator: *operator,
                right: *right,
            },
            Expr::Variable(name) => ExprView::Variable(*name),
        }
    }
}

/// The operators that a binary expression may carry.
pub open spec fn is_binary_operator(kind: TokenType) -> bool {
    kind == TokenType::Minus || kind == TokenType::Plus || kind == TokenType::Slash || kind
        == TokenType::Star || kind == TokenType::Greater || kind == TokenType::GreaterEqual || kind
        == TokenType::Less || kind == TokenType::LessEqual || kind == TokenType::BangEqual || kind
        == TokenType::EqualEqual
}

/// The operators that a unary expression may carry.
pub open spec fn is_unary_operator(kind: TokenType) -> bool {
    kind == TokenType::Bang || kind == TokenType::Minus
}

/// A literal is a boolean, nil, a number or a string.
pub open spec fn is_primitive(value: Value) -> bool {
    value is Boolean || value is Nil || value is Number || value is Text
}

/// Every index of `ids` lies below `bound`.
pub open spec fn ids_below(ids: Seq<usize>, bound: int) -> bool {
    forall|j: int| 0 <= j < ids.len() ==> #[trigger] ids[j] < bound
}

/// Every index of `ids` lies below `bound` and names a function declaration.
pub open spec fn names_functions(ids: Seq<usize>, bound: int, stmts: Seq<Stmt>) -> bool {
    forall|j: int| 0 <= j < ids.len() ==> #[trigger] ids[j] < bound && stmts[ids[j] as int] is Function
}

/// An expression that may stand at index `bound`: its children come before
/// it and its operator fits its kind.
pub open spec fn expr_wf(expr: Expr, bound: int) -> bool {
    match expr {
        Expr::Assign { value, .. } => value < bound,
        Expr::Binary { left, operator, right } => left < bound && right < bound
            && is_binary_operator(operator.token_type),
        Expr::Call { callee, arguments, .. } => callee < bound && ids_below(arguments@, bound),
        Expr::Get { object, .. } => object < bound,
        Expr::Grouping(inner) => inner < bound,
        Expr::Literal(value) => is_primitive(value@),
        Expr::Logical { left, right, .. } => left < bound && right < bound,
        Expr::SetProperty { object, value, .. } => object < bound && value < bound,
        Expr::Super { .. } => true,
        Expr::This(_) => true,
        Expr::Unary { operator, right } => right < bound && is_unary_operator(operator.token_type),
        Expr::Variable(_) => true,
    }
}

/// A statement that may stand at index `bound` of `stmts`: its statements
/// come before it, its expressions exist, and the methods of a class are
/// function declarations.
pub open spec fn stmt_wf(stmt: Stmt, bound: int, exprs: int, stmts: Seq<Stmt>) -> bool {
    match stmt {
        Stmt::Block(body) => ids_below(body@, bound),
        Stmt::Class { superclass, methods, .. } => (superclass matches Some(e) ==> e < exprs)
            && names_functions(methods@, bound, stmts),
        Stmt::Expression(e) => e < exprs,
        Stmt::Function { body, .. } => ids_below(body@, bound),
        Stmt::If { condition, then_branch, opt_else_branch } => condition < exprs && then_branch
            < bound && (opt_else_branch matches Some(s) ==> s < bound),
        Stmt::Print(e) => e < exprs,
        Stmt::Return { value, .. } => value < exprs,
        Stmt::Var { initializer, .. } => initializer < exprs,
        Stmt::While { condition, body } => condition < exprs && body < bound,
    }
}

/// The two tables of nodes.
#[derive(Debug)]
pub struct Ast {
    pub exprs: Vec<Expr>,
    pub stmts: Vec<Stmt>,
}

/// Whether every index of `ids` lies below `bound`.
fn all_below(ids: &Vec<usize>, bound: usize) -> (below: bool)
    ensures
        below == ids_below(ids@, bound as int),
{
    let mut j: usize = 0;
    while j < ids.len()
        invariant
            j <= ids.len(),
            forall|k: int| 0 <= k < j ==> #[trigger] ids[k] < bound,
        decreases ids.len() - j,
    {
        if ids[j] >= bound {
            return false;
        }
        j = j + 1;
    }
    true
}

impl Ast {
    /// Every node is well formed at its place.
    pub closed spec fn wf(&self) -> bool {
        &&& forall|i: int| 0 <= i < self.exprs.len() ==> expr_wf(#[trigger] self.exprs[i], i)
        &&& forall|i: int|
            0 <= i < self.stmts.len() ==> stmt_wf(
                #[trigger] self.stmts[i],
                i,
                self.exprs.len() as int,
                self.stmts@,
            )
    }

    /// This tree holds every node of `earlier` at the same index.
    pub open spec fn extends(&self, earlier: &Ast) -> bool {
        &&& earlier.exprs.len() <= self.exprs.len()
        &&& earlier.stmts.len() <= self.stmts.len()
        &&& forall|i: int| 0 <= i < earlier.exprs.len() ==> #[trigger] self.exprs@[i] == earlier.exprs@[i]
        &&& forall|i: int| 0 <= i < earlier.stmts.len() ==> #[trigger] self.stmts@[i] == earlier.stmts@[i]
    }

    /// The children of an expression of a well-formed tree come before it.
    pub proof fn lemma_expr_wf(&self, id: int)
        requires
            self.wf(),
            0 <= id < self.exprs.len(),
        ensures
            expr_wf(self.exprs[id], id),
    {
    }

    /// The children of a statement of a well-formed tree come before it.
    pub proof fn lemma_stmt_wf(&self, id: int)
        requires
            self.wf(),
            0 <= id < self.stmts.len(),
        ensures
            stmt_wf(self.stmts[id], id, self.exprs.len() as int, self.stmts@),
    {
    }

    /// A tree holds every node of itself.
    pub proof fn lemma_extends_itself(&self)
        ensures
            self.extends(self),
    {
    }

    /// What holds the nodes of a tree that holds the nodes of a third holds
    /// the nodes of the third.
    pub proof fn lemma_extends(&self, middle: &Ast, earliest: &Ast)
        requires
            self.extends(middle),
            middle.extends(earliest),
        ensures
            self.extends(earliest),
    {
    }

    /// What the expressions hold, in order.
    pub open spec fn expr_views(&self) -> Seq<ExprView> {
        self.exprs@.map_values(|expr: Expr| expr@)
    }

    /// What the statements hold, in order.
    pub open spec fn stmt_views(&self) -> Seq<StmtView> {
        self.stmts@.map_values(|stmt: Stmt| stmt@)
    }

    /// Adds an expression that is known to fit and returns its index.
    pub fn push_expr(&mut self, expr: Expr) -> (id: usize)
        requires
            old(self).wf(),
            expr_wf(expr, old(self).exprs.len() as int),
        ensures
            final(self).wf(),
            final(self).extends(old(self)),
            final(self).stmts@ == old(self).stmts@,
            final(self).exprs@ == old(self).exprs@.push(expr),
            final(self).expr_views() == old(self).expr_views().push(expr@),
            final(self).stmt_views() == old(self).stmt_views(),
            id == old(self).exprs.len(),
    {
        let id = self.add_expr(expr);
        assert(self.expr_views() =~= old(self).expr_views().push(expr@));
        id.unwrap()
    }

    /// Adds a statement that is known to fit and returns its index.
    pub fn push_stmt(&mut self, stmt: Stmt) -> (id: usize)
        requires
            old(self).wf(),
            stmt_wf(
                stmt,
                old(self).stmts.len() as int,
                old(self).exprs.len() as int,
                old(self).stmts@,
            ),
        ensures
            final(self).wf(),
            final(self).extends(old(self)),
            final(self).exprs@ == old(self).exprs@,
            final(self).stmts@ == old(self).stmts@.push(stmt),
            final(self).stmt_views() == old(self).stmt_views().push(stmt@),
            final(self).expr_views() == old(self).expr_views(),
            id == old(self).stmts.len(),
    {
        let id = self.add_stmt(stmt);
        assert(self.stmt_views() =~= old(self).stmt_views().push(stmt@));
        id.unwrap()
    }

    /// A tree without nodes.
    pub fn new() -> (ast: Self)
        ensures
            ast.wf(),
            ast.exprs@.len() == 0,
            ast.stmts@.len() == 0,
    {
        Ast { exprs: Vec::new(), stmts: Vec::new() }
    }

    /// Whether `expr` may be added as the next expression.
    pub fn accepts_expr(&self, expr: &Expr) -> (accepted: bool)
        ensures
            accepted == expr_wf(*expr, self.exprs.len() as int),
    {
        let bound = self.exprs.len();
        match expr {
            Expr::Assign { value, .. } => *value < bound,
            Expr::Binary { left, operator, right } => {
                *left < bound && *right < bound && (operator.token_type == TokenType::Minus
                    || operator.token_type == TokenType::Plus || operator.token_type
                    == TokenType::Slash || operator.token_type == TokenType::Star
                    || operator.token_type == TokenType::Greater || operator.token_type
                    == TokenType::GreaterEqual || operator.token_type == TokenType::Less
                    || operator.token_type == TokenType::LessEqual || operator.token_type
                    == TokenType::BangEqual || operator.token_type == TokenType::EqualEqual)
            },
            Expr::Call { callee, arguments, .. } => *callee < bound && all_below(arguments, bound),
            Expr::Get { object, .. } => *object < bound,
            Expr::Grouping(inner) => *inner < bound,
            Expr::Literal(value) => match value {
                LoxType::Boolean(_) | LoxType::Nil | LoxType::Number(_) | LoxType::String(_) => true,
                _ => false,
            },
            Expr::Logical { left, right, .. } => *left < bound && *right < bound,
            Expr::SetProperty { object, value, .. } => *object < bound && *value < bound,
            Expr::Super { .. } => true,
            Expr::This(_) => true,
            Expr::Unary { operator, right } => *right < bound && (operator.token_type
                == TokenType::Bang || operator.token_type == TokenType::Minus),
            Expr::Variable(_) => true,
        }
    }

    /// Whether every index of `ids` names a function declaration of this tree.
    fn all_functions(&self, ids: &Vec<usize>) -> (functions: bool)
        ensures
            functions == names_functions(ids@, self.stmts.len() as int, self.stmts@),
    {
        let mut j: usize = 0;
        while j < ids.len()
            invariant
                j <= ids.len(),
                forall|k: int|
                    0 <= k < j ==> #[trigger] ids[k] < self.stmts.len()
                        && self.stmts[ids[k] as int] is Function,
            decreases ids.len() - j,
        {
            if ids[j] >= self.stmts.len() {
                return false;
            }
            match &self.stmts[ids[j]] {
                Stmt::Function { .. } => {},
                _ => {
                    return false;
                },
            }
            j = j + 1;
        }
        true
    }

    /// Whether `stmt` may be added as the next statement.
    pub fn accepts_stmt(&self, stmt: &Stmt) -> (accepted: bool)
        ensures
            accepted == stmt_wf(
                *stmt,
                self.stmts.len() as int,
                self.exprs.len() as int,
                self.stmts@,
            ),
    {
        let bound = self.stmts.len();
        let exprs = self.exprs.len();
        match stmt {
            Stmt::Block(body) => all_below(body, bound),
            Stmt::Class { superclass, methods, .. } => {
                let superclass_exists = match superclass {
                    Some(e) => *e < exprs,
                    None => true,
                };
                superclass_exists && self.all_functions(methods)
            },
            Stmt::Expression(e) => *e < exprs,
            Stmt::Function { body, .. } => all_below(body, bound),
            Stmt::If { condition, then_branch, opt_else_branch } => {
                let else_exists = match opt_else_branch {
                    Some(s) => *s < bound,
                    None => true,
                };
                *condition < exprs && *then_branch < bound && else_exists
            },
            Stmt::Print(e) => *e < exprs,
            Stmt::Return { value, .. } => *value < exprs,
            Stmt::Var { initializer, .. } => *initializer < exprs,
            Stmt::While { condition, body } => *condition < exprs && *body < bound,
        }
    }

    /// Adds an expression and returns its index. An expression that points
    /// at a node that does not exist yet, or carries an operator that does
    /// not fit, is refused and the tree stays as it is.
    pub fn add_expr(&mut self, expr: Expr) -> (id: Option<usize>)
        requires
            old(self).wf(),
        ensures
            final(self).wf(),
            final(self).extends(old(self)),
            final(self).stmts@ == old(self).stmts@,
            match id {
                Some(i) => expr_wf(expr, old(self).exprs.len() as int) && i == old(self).exprs.len()
                    && final(self).exprs@ == old(self).exprs@.push(expr),
                None => !expr_wf(expr, old(self).exprs.len() as int) && final(self).exprs@ == old(
                    self,
                ).exprs@,
            },
    {
        if self.accepts_expr(&expr) {
            let id = self.exprs.len();
            self.exprs.push(expr);
            proof {
                assert forall|i: int| 0 <= i < self.stmts.len() implies stmt_wf(
                    #[trigger] self.stmts[i],
                    i,
                    self.exprs.len() as int,
                    self.stmts@,
                ) by {
                    assert(stmt_wf(old(self).stmts[i], i, old(self).exprs.len() as int, old(self).stmts@));
                }
            }
            Some(id)
        } else {
            None
        }
    }

    /// Adds a statement and returns its index. A statement that points at a
    /// node that does not exist yet, or a class with a method that is no
    /// function declaration, is refused and the tree stays as it is.
    pub fn add_stmt(&mut self, stmt: Stmt) -> (id: Option<usize>)
        requires
            old(self).wf(),
        ensures
            final(self).wf(),
            final(self).extends(old(self)),
            final(self).exprs@ == old(self).exprs@,
            match id {
                Some(i) => stmt_wf(
                    stmt,
                    old(self).stmts.len() as int,
                    old(self).exprs.len() as int,
                    old(self).stmts@,
                ) && i == old(self).stmts.len() && final(self).stmts@ == old(self).stmts@.push(stmt),
                None => !stmt_wf(
                    stmt,
                    old(self).stmts.len() as int,
                    old(self).exprs.len() as int,
                    old(self).stmts@,
                ) && final(self).stmts@ == old(self).stmts@,
            },
    {
        if self.accepts_stmt(&stmt) {
            let id = self.stmts.len();
            self.stmts.push(stmt);
            proof {
                assert forall|i: int| 0 <= i < self.stmts.len() implies stmt_wf(
                    #[trigger] self.stmts[i],
                    i,
                    self.exprs.len() as int,
                    self.stmts@,
                ) by {
                    if i < old(self).stmts.len() {
                        assert(stmt_wf(
                            old(self).stmts[i],
                            i,
                            old(self).exprs.len() as int,
                            old(self).stmts@,
                        ));
                    }
                }
            }
            Some(id)
        } else {
            None
        }
    }
}

} // verus!
