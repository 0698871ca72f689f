//! The grammar of the language, as a function from tokens to syntax tree.
//!
//! Each function here reads tokens from a place on and says which nodes
//! are added to the tree, where reading goes on, and what is reported. A
//! result of `None` is a syntax error, which has been reported where it was
//! found. `crate::parser` is the executable form.

use vstd::prelude::*;

use crate::ast::{ExprView, StmtView};
use crate::lox::{place_of, report_line, reported, DiagnosticsView};
use crate::lox_type::LoxType;
use crate::token::Token;
use crate::token_type::TokenType;

verus! {

/// How far parsing has come: the nodes made, the place of the next token
/// and the errors reported.
pub ghost struct Parse {
    pub exprs: Seq<ExprView>,
    pub stmts: Seq<StmtView>,
    pub current: nat,
    pub diagnostics: DiagnosticsView,
}

/// Tokens that a parser can read: there is at least one, and the last one
/// ends the text.
pub open spec fn tokens_wf(tokens: Seq<Token>) -> bool {
    tokens.len() > 0 && tokens.last().token_type == TokenType::Eof
}

/// Whether `read` is what a parser reads when it is given the tokens
/// `given`: the tokens themselves where they end the text, else the tokens
/// with an end-of-text token behind them, on the line of the last token.
pub open spec fn terminated(given: Seq<Token>, read: Seq<Token>) -> bool {
    if tokens_wf(given) {
        read == given
    } else {
        &&& read.len() == given.len() + 1
        &&& read.drop_last() == given
        &&& read.last()@ == (crate::token::TokenView {
            token_type: TokenType::Eof,
            lexeme: Seq::empty(),
            literal: None,
            line: if given.len() > 0 {
                given.last().line
            } else {
                1
            },
        })
    }
}

/// The number of tokens from the current place on.
pub open spec fn remaining(tokens: Seq<Token>, p: Parse) -> nat {
    if p.current < tokens.len() {
        (tokens.len() - p.current) as nat
    } else {
        0
    }
}

/// The token at the current place.
pub open spec fn peek(tokens: Seq<Token>, p: Parse) -> Token {
    tokens[p.current as int]
}

/// Whether the current token ends the text.
pub open spec fn at_end(tokens: Seq<Token>, p: Parse) -> bool {
    p.current >= tokens.len() || peek(tokens, p).token_type == TokenType::Eof
}

/// Whether the current token is of kind `kind`.
pub open spec fn check(tokens: Seq<Token>, p: Parse, kind: TokenType) -> bool {
    !at_end(tokens, p) && peek(tokens, p).token_type == kind
}

/// Go past the current token, unless it ends the text.
pub open spec fn advance(tokens: Seq<Token>, p: Parse) -> Parse {
    if at_end(tokens, p) {
        p
    } else {
        Parse { current: p.current + 1, ..p }
    }
}

/// Report an error at `token`.
pub open spec fn fail(p: Parse, token: Token, message: Seq<char>) -> Parse {
    Parse {
        diagnostics: reported(
            p.diagnostics,
            report_line(token.line as nat, place_of(token), message),
        ),
        ..p
    }
}

/// Read a token of kind `kind`, or report `message` at the current token.
pub open spec fn consume(
    tokens: Seq<Token>,
    p: Parse,
    kind: TokenType,
    message: Seq<char>,
) -> (Parse, Option<Token>) {
    if check(tokens, p, kind) {
        (advance(tokens, p), Some(peek(tokens, p)))
    } else {
        (fail(p, peek(tokens, p), message), None)
    }
}

/// Add an expression to the tree.
pub open spec fn expr(p: Parse, node: ExprView) -> (Parse, Option<usize>) {
    (Parse { exprs: p.exprs.push(node), ..p }, Some(p.exprs.len() as usize))
}

/// Add a statement to the tree.
pub open spec fn stmt(p: Parse, node: StmtView) -> (Parse, Option<usize>) {
    (Parse { stmts: p.stmts.push(node), ..p }, Some(p.stmts.len() as usize))
}

/// A result as it is if reading has not gone backwards, else an error.
pub open spec fn forward<T>(p: Parse, result: (Parse, Option<T>)) -> (Parse, Option<T>) {
    if result.0.current >= p.current {
        result
    } else {
        (p, None)
    }
}

/// Whether `value` may stand in a literal expression.
pub open spec fn literal_value(value: Option<LoxType>) -> bool {
    value matches Some(v) && crate::ast::is_primitive(v@)
}

/// "super" "." IDENTIFIER, after the keyword.
pub open spec fn super_method(
    tokens: Seq<Token>,
    p: Parse,
    keyword: Token,
) -> (Parse, Option<usize>) {
    let (dotted, dot) = consume(tokens, p, TokenType::Dot, "Expect '.' after 'super'."@);
    if dot is None {
        (dotted, None)
    } else {
        let (named, method) = consume(
            tokens,
            dotted,
            TokenType::Identifier,
            "Expect superclass method name."@,
        );
        match method {
            Some(method) => expr(named, ExprView::Super { keyword, method }),
            None => (named, None),
        }
    }
}

/// "(" expression ")", after the opening parenthesis.
pub open spec fn grouping(tokens: Seq<Token>, p: Parse) -> (Parse, Option<usize>)
    decreases remaining(tokens, p), 12nat, 0nat,
{
    let (inside, inner) = expression_then(
        tokens,
        p,
        TokenType::RightParen,
        "Expect ')' after expression."@,
    );
    match inner {
        Some(inner) => expr(inside, ExprView::Grouping(inner)),
        None => (inside, None),
    }
}

/// The literal that the current token is, if it is one: "true" | "false"
/// | "nil" | NUMBER | STRING. A number or string token counts only with a
/// value.
pub open spec fn literal(tokens: Seq<Token>, p: Parse) -> Option<LoxType> {
    let token = peek(tokens, p);
    if check(tokens, p, TokenType::False) {
        Some(LoxType::Boolean(false))
    } else if check(tokens, p, TokenType::True) {
        Some(LoxType::Boolean(true))
    } else if check(tokens, p, TokenType::Nil) {
        Some(LoxType::Nil)
    } else if (check(tokens, p, TokenType::Number) || check(tokens, p, TokenType::String))
        && literal_value(token.literal) {
        token.literal
    } else {
        None
    }
}

/// primary → "true" | "false" | "nil" | "this" | NUMBER | STRING
///         | IDENTIFIER | "(" expression ")" | "super" "." IDENTIFIER
pub open spec fn primary(tokens: Seq<Token>, p: Parse) -> (Parse, Option<usize>)
    decreases remaining(tokens, p), 0nat, 0nat,
{
    let token = peek(tokens, p);
    let next = advance(tokens, p);
    if literal(tokens, p) is Some {
        expr(next, ExprView::Literal(literal(tokens, p).unwrap()))
    } else if check(tokens, p, TokenType::Super) {
        super_method(tokens, next, token)
    } else if check(tokens, p, TokenType::This) {
        expr(next, ExprView::This(token))
    } else if check(tokens, p, TokenType::Identifier) {
        expr(next, ExprView::Variable(token))
    } else if check(tokens, p, TokenType::LeftParen) {
        grouping(tokens, next)
    } else {
        (fail(p, token, "Expect expression."@), None)
    }
}

/// The arguments of a call, after the opening parenthesis:
/// arguments → expression ( "," expression )*
/// `found` holds the arguments read so far. More than 255 arguments are
/// reported, and read all the same.
pub open spec fn arguments(
    tokens: Seq<Token>,
    p: Parse,
    found: Seq<usize>,
) -> (Parse, Option<Seq<usize>>)
    decreases remaining(tokens, p), 11nat, 0nat,
{
    let counted = if found.len() >= 255 {
        fail(p, peek(tokens, p), "Can't have more than 255 arguments."@)
    } else {
        p
    };
    let (read, argument) = forward(p, expression(tokens, counted));
    match argument {
        Some(argument) => if check(tokens, read, TokenType::Comma) {
            arguments(tokens, advance(tokens, read), found.push(argument))
        } else {
            (read, Some(found.push(argument)))
        },
        None => (read, None),
    }
}

/// The rest of a call, after the opening parenthesis.
pub open spec fn finish_call(tokens: Seq<Token>, p: Parse, callee: usize) -> (Parse, Option<usize>)
    decreases remaining(tokens, p), 12nat, 0nat,
{
    let (read, found) = if check(tokens, p, TokenType::RightParen) {
        (p, Some(Seq::<usize>::empty()))
    } else {
        forward(p, arguments(tokens, p, Seq::empty()))
    };
    match found {
        Some(found) => {
            let (closed, paren) = consume(
                tokens,
                read,
                TokenType::RightParen,
                "Expect ')' after arguments."@,
            );
            match paren {
                Some(paren) => expr(closed, ExprView::Call { callee, paren, arguments: found }),
                None => (closed, None),
            }
        },
        None => (read, None),
    }
}

/// What follows a primary expression: calls and property reads, in any
/// number. `callee` is the expression read so far.
pub open spec fn call_tail(tokens: Seq<Token>, p: Parse, callee: usize) -> (Parse, Option<usize>)
    decreases remaining(tokens, p), 0nat, 0nat,
{
    if check(tokens, p, TokenType::LeftParen) {
        let (read, called) = forward(p, finish_call(tokens, advance(tokens, p), callee));
        match called {
            Some(called) => if read.current > p.current {
                call_tail(tokens, read, called)
            } else {
                (read, None)
            },
            None => (read, None),
        }
    } else if check(tokens, p, TokenType::Dot) {
        let (read, name) = consume(
            tokens,
            advance(tokens, p),
            TokenType::Identifier,
            "Expect property name after '.'."@,
        );
        match name {
            Some(name) => {
                let (made, object) = expr(read, ExprView::Get { object: callee, name });
                call_tail(tokens, made, object.unwrap())
            },
            None => (read, None),
        }
    } else {
        (p, Some(callee))
    }
}

/// call → primary ( "(" arguments? ")" | "." IDENTIFIER )*
pub open spec fn call(tokens: Seq<Token>, p: Parse) -> (Parse, Option<usize>)
    decreases remaining(tokens, p), 1nat, 0nat,
{
    let (read, callee) = forward(p, primary(tokens, p));
    match callee {
        Some(callee) => call_tail(tokens, read, callee),
        None => (read, None),
    }
}

/// unary → ( "!" | "-" ) unary | call
pub open spec fn unary(tokens: Seq<Token>, p: Parse) -> (Parse, Option<usize>)
    decreases remaining(tokens, p), 2nat, 0nat,
{
    if check(tokens, p, TokenType::Bang) || check(tokens, p, TokenType::Minus) {
        let (read, right) = unary(tokens, advance(tokens, p));
        match right {
            Some(right) => expr(read, ExprView::Unary { operator: peek(tokens, p), right }),
            None => (read, None),
        }
    } else {
        call(tokens, p)
    }
}

/// The levels of binary operators, loosest first: `or`, `and`, equality,
/// comparison, sum and difference, product and quotient.
pub open spec fn operator_at(level: nat, kind: TokenType) -> bool {
    if level == 0 {
        kind == TokenType::Or
    } else if level == 1 {
        kind == TokenType::And
    } else if level == 2 {
        kind == TokenType::BangEqual || kind == TokenType::EqualEqual
    } else if level == 3 {
        kind == TokenType::Greater || kind == TokenType::GreaterEqual || kind == TokenType::Less
            || kind == TokenType::LessEqual
    } else if level == 4 {
        kind == TokenType::Minus || kind == TokenType::Plus
    } else {
        kind == TokenType::Slash || kind == TokenType::Star
    }
}

/// The number of levels that bind tighter than `level`.
pub open spec fn levels_below(level: nat) -> nat {
    if level < 5 {
        (5 - level) as nat
    } else {
        0
    }
}

/// The node for `left operator right` at `level`.
pub open spec fn binary_node(level: nat, left: usize, operator: Token, right: usize) -> ExprView {
    if level < 2 {
        ExprView::Logical { left, operator, right }
    } else {
        ExprView::Binary { left, operator, right }
    }
}

/// An operand of a binary operator of `level`: an expression of the next
/// tighter level.
pub open spec fn operand(tokens: Seq<Token>, p: Parse, level: nat) -> (Parse, Option<usize>)
    decreases remaining(tokens, p), 3nat, 2 * levels_below(level) + 1,
{
    if level < 5 {
        binary(tokens, p, level + 1)
    } else {
        unary(tokens, p)
    }
}

/// What follows the first operand at `level`: operators of the level, each
/// with its right operand. They group to the left. `left` is the
/// expression read so far.
pub open spec fn binary_tail(
    tokens: Seq<Token>,
    p: Parse,
    left: usize,
    level: nat,
) -> (Parse, Option<usize>)
    decreases remaining(tokens, p), 0nat, 0nat,
{
    if !at_end(tokens, p) && operator_at(level, peek(tokens, p).token_type) {
        let after = advance(tokens, p);
        let (read, right) = forward(after, operand(tokens, after, level));
        match right {
            Some(right) => {
                let (made, node) = expr(read, binary_node(level, left, peek(tokens, p), right));
                binary_tail(tokens, made, node.unwrap(), level)
            },
            None => (read, None),
        }
    } else {
        (p, Some(left))
    }
}

/// An expression of binary operators of `level` and tighter.
pub open spec fn binary(tokens: Seq<Token>, p: Parse, level: nat) -> (Parse, Option<usize>)
    decreases remaining(tokens, p), 3nat, 2 * levels_below(level) + 2,
{
    let (read, left) = forward(p, operand(tokens, p, level));
    match left {
        Some(left) => binary_tail(tokens, read, left, level),
        None => (read, None),
    }
}

/// The node that assigns expression `value` to the target that expression
/// `target` names. Only a variable or a property read is a target; at
/// anything else an error is reported at the equals sign.
pub open spec fn assign(
    p: Parse,
    equals: Token,
    target: usize,
    value: usize,
) -> (Parse, Option<usize>) {
    if target < p.exprs.len() {
        match p.exprs[target as int] {
            ExprView::Variable(name) => expr(p, ExprView::Assign { name, value }),
            ExprView::Get { object, name } => expr(p, ExprView::SetProperty { object, name, value }),
            _ => (fail(p, equals, "Invalid assignment target."@), None),
        }
    } else {
        (fail(p, equals, "Invalid assignment target."@), None)
    }
}

/// assignment → ( call "." )? IDENTIFIER "=" assignment | logic_or
///
/// The target is read as an expression first.
pub open spec fn assignment(tokens: Seq<Token>, p: Parse) -> (Parse, Option<usize>)
    decreases remaining(tokens, p), 9nat, 0nat,
{
    let (read, target) = forward(p, binary(tokens, p, 0));
    match target {
        Some(target) => if check(tokens, read, TokenType::Equal) {
            let (after, value) = assignment(tokens, advance(tokens, read));
            match value {
                Some(value) => assign(after, peek(tokens, read), target, value),
                None => (after, None),
            }
        } else {
            (read, Some(target))
        },
        None => (read, None),
    }
}

/// expression → assignment
pub open spec fn expression(tokens: Seq<Token>, p: Parse) -> (Parse, Option<usize>)
    decreases remaining(tokens, p), 10nat, 0nat,
{
    assignment(tokens, p)
}

/// Read an expression and the token of kind `kind` behind it.
pub open spec fn expression_then(
    tokens: Seq<Token>,
    p: Parse,
    kind: TokenType,
    message: Seq<char>,
) -> (Parse, Option<usize>)
    decreases remaining(tokens, p), 11nat, 0nat,
{
    let (read, value) = forward(p, expression(tokens, p));
    match value {
        Some(value) => {
            let (closed, closing) = consume(tokens, read, kind, message);
            if closing is Some {
                (closed, Some(value))
            } else {
                (closed, None)
            }
        },
        None => (read, None),
    }
}

/// exprStmt → expression ";"
pub open spec fn expression_statement(tokens: Seq<Token>, p: Parse) -> (Parse, Option<usize>)
    decreases remaining(tokens, p), 12nat, 0nat,
{
    let (read, value) = expression_then(tokens, p, TokenType::SemiColon, "Expect ';' after expression."@);
    match value {
        Some(value) => stmt(read, StmtView::Expression(value)),
        None => (read, None),
    }
}

/// printStmt → "print" expression ";", after the keyword.
pub open spec fn print_statement(tokens: Seq<Token>, p: Parse) -> (Parse, Option<usize>)
    decreases remaining(tokens, p), 12nat, 0nat,
{
    let (read, value) = expression_then(tokens, p, TokenType::SemiColon, "Expect ';' after value."@);
    match value {
        Some(value) => stmt(read, StmtView::Print(value)),
        None => (read, None),
    }
}

/// returnStmt → "return" expression? ";", after the keyword. Without an
/// expression the statement returns the literal nil.
pub open spec fn return_statement(
    tokens: Seq<Token>,
    p: Parse,
    keyword: Token,
) -> (Parse, Option<usize>)
    decreases remaining(tokens, p), 12nat, 0nat,
{
    let (read, value) = if check(tokens, p, TokenType::SemiColon) {
        expr(p, ExprView::Literal(LoxType::Nil))
    } else {
        forward(p, expression(tokens, p))
    };
    match value {
        Some(value) => {
            let (closed, closing) = consume(
                tokens,
                read,
                TokenType::SemiColon,
                "Expect ';' after return value."@,
            );
            if closing is Some {
                stmt(closed, StmtView::Return { keyword, value })
            } else {
                (closed, None)
            }
        },
        None => (read, None),
    }
}

/// varDecl → "var" IDENTIFIER ( "=" expression )? ";", after the keyword.
/// Without an initializer the variable starts as the literal nil.
pub open spec fn var_declaration(tokens: Seq<Token>, p: Parse) -> (Parse, Option<usize>)
    decreases remaining(tokens, p), 12nat, 0nat,
{
    let (named, name) = consume(tokens, p, TokenType::Identifier, "Expect variable name."@);
    match name {
        Some(name) => {
            let (read, initializer) = if check(tokens, named, TokenType::Equal) {
                forward(named, expression(tokens, advance(tokens, named)))
            } else {
                expr(named, ExprView::Literal(LoxType::Nil))
            };
            match initializer {
                Some(initializer) => {
                    let (closed, closing) = consume(
                        tokens,
                        read,
                        TokenType::SemiColon,
                        "Expect ';' after variable declaration."@,
                    );
                    if closing is Some {
                        stmt(closed, StmtView::Var { name, initializer })
                    } else {
                        (closed, None)
                    }
                },
                None => (read, None),
            }
        },
        None => (named, None),
    }
}

/// The condition of an `if` or a `while` in its parentheses, after the
/// keyword.
pub open spec fn condition(
    tokens: Seq<Token>,
    p: Parse,
    open_message: Seq<char>,
    close_message: Seq<char>,
) -> (Parse, Option<usize>)
    decreases remaining(tokens, p), 12nat, 0nat,
{
    let (opened, paren) = consume(tokens, p, TokenType::LeftParen, open_message);
    if paren is Some {
        forward(p, expression_then(tokens, opened, TokenType::RightParen, close_message))
    } else {
        (opened, None)
    }
}

/// A condition in its parentheses and the statement that it guards.
pub open spec fn guarded(
    tokens: Seq<Token>,
    p: Parse,
    open_message: Seq<char>,
    close_message: Seq<char>,
) -> (Parse, Option<(usize, usize)>)
    decreases remaining(tokens, p), 15nat, 1nat,
{
    let (read, test) = forward(p, condition(tokens, p, open_message, close_message));
    match test {
        Some(test) => {
            let (after, body) = forward(read, statement(tokens, read));
            match body {
                Some(body) => (after, Some((test, body))),
                None => (after, None),
            }
        },
        None => (read, None),
    }
}

/// ifStmt → "if" "(" expression ")" statement ( "else" statement )?,
/// after the keyword. An `else` belongs to the nearest `if`.
pub open spec fn if_statement(tokens: Seq<Token>, p: Parse) -> (Parse, Option<usize>)
    decreases remaining(tokens, p), 16nat, 0nat,
{
    let (first, parts) = forward(
        p,
        guarded(tokens, p, "Expect '(' after 'if'."@, "Expect ')' after if condition."@),
    );
    match parts {
        Some((test, then_branch)) => if check(tokens, first, TokenType::Else) {
            let (second, else_branch) = forward(first, statement(tokens, advance(tokens, first)));
            match else_branch {
                Some(else_branch) => stmt(
                    second,
                    StmtView::If {
                        condition: test,
                        then_branch,
                        opt_else_branch: Some(else_branch),
                    },
                ),
                None => (second, None),
            }
        } else {
            stmt(first, StmtView::If { condition: test, then_branch, opt_else_branch: None })
        },
        None => (first, None),
    }
}

/// The loop that runs statement `body` while expression `test` holds.
pub open spec fn while_loop(p: Parse, test: usize, body: usize) -> (Parse, Option<usize>) {
    stmt(p, StmtView::While { condition: test, body })
}

/// whileStmt → "while" "(" expression ")" statement, after the keyword.
pub open spec fn while_statement(tokens: Seq<Token>, p: Parse) -> (Parse, Option<usize>)
    decreases remaining(tokens, p), 16nat, 0nat,
{
    let (read, parts) = forward(
        p,
        guarded(tokens, p, "Expect '(' after 'while'."@, "Expect ')' after condition."@),
    );
    match parts {
        Some((test, body)) => while_loop(read, test, body),
        None => (read, None),
    }
}

/// The first clause of a `for`: a variable declaration, an expression
/// statement, or nothing but the semicolon.
pub open spec fn for_initializer(tokens: Seq<Token>, p: Parse) -> (Parse, Option<Option<usize>>)
    decreases remaining(tokens, p), 13nat, 0nat,
{
    if check(tokens, p, TokenType::SemiColon) {
        (advance(tokens, p), Some(None))
    } else {
        let (read, initializer) = if check(tokens, p, TokenType::Var) {
            forward(p, var_declaration(tokens, advance(tokens, p)))
        } else {
            forward(p, expression_statement(tokens, p))
        };
        match initializer {
            Some(initializer) => (read, Some(Some(initializer))),
            None => (read, None),
        }
    }
}

/// The second clause of a `for` with its semicolon: the condition, which
/// is the literal true where none is written.
pub open spec fn for_condition(tokens: Seq<Token>, p: Parse) -> (Parse, Option<usize>)
    decreases remaining(tokens, p), 13nat, 0nat,
{
    if check(tokens, p, TokenType::SemiColon) {
        expr(advance(tokens, p), ExprView::Literal(LoxType::Boolean(true)))
    } else {
        forward(
            p,
            expression_then(tokens, p, TokenType::SemiColon, "Expect ';' after loop condition."@),
        )
    }
}

/// The third clause of a `for` with the closing parenthesis: the
/// increment, if one is written.
pub open spec fn for_increment(tokens: Seq<Token>, p: Parse) -> (Parse, Option<Option<usize>>)
    decreases remaining(tokens, p), 13nat, 0nat,
{
    if check(tokens, p, TokenType::RightParen) {
        (advance(tokens, p), Some(None))
    } else {
        let (read, increment) = forward(
            p,
            expression_then(tokens, p, TokenType::RightParen, "Expect ')' after for clauses."@),
        );
        match increment {
            Some(increment) => (read, Some(Some(increment))),
            None => (read, None),
        }
    }
}

/// The loop that a `for` stands for: the body, followed by the increment
/// where there is one, runs while the condition holds; the whole stands in
/// a block behind the initializer where there is one.
pub open spec fn for_loop(
    p: Parse,
    initializer: Option<usize>,
    test: usize,
    increment: Option<usize>,
    body: usize,
) -> (Parse, Option<usize>) {
    let (stepped, inner) = match increment {
        Some(increment) => {
            let (made, step) = stmt(p, StmtView::Expression(increment));
            stmt(made, StmtView::Block(seq![body, step.unwrap()]))
        },
        None => (p, Some(body)),
    };
    let (looped, repeat) = while_loop(stepped, test, inner.unwrap());
    match initializer {
        Some(initializer) => stmt(looped, StmtView::Block(seq![initializer, repeat.unwrap()])),
        None => (looped, repeat),
    }
}

/// The three clauses of a `for` in their parentheses.
pub open spec fn for_clauses(
    tokens: Seq<Token>,
    p: Parse,
) -> (Parse, Option<(Option<usize>, usize, Option<usize>)>)
    decreases remaining(tokens, p), 14nat, 1nat,
{
    let (opened, paren) = consume(tokens, p, TokenType::LeftParen, "Expect '(' after 'for'."@);
    if paren is None {
        (opened, None)
    } else {
        let (first, initializer) = forward(p, for_initializer(tokens, opened));
        match initializer {
            Some(initializer) => {
                let (second, test) = forward(first, for_condition(tokens, first));
                match test {
                    Some(test) => {
                        let (third, increment) = forward(second, for_increment(tokens, second));
                        match increment {
                            Some(increment) => (third, Some((initializer, test, increment))),
                            None => (third, None),
                        }
                    },
                    None => (second, None),
                }
            },
            None => (first, None),
        }
    }
}

/// forStmt → "for" "(" ( varDecl | exprStmt | ";" ) expression? ";"
///           expression? ")" statement, after the keyword.
pub open spec fn for_statement(tokens: Seq<Token>, p: Parse) -> (Parse, Option<usize>)
    decreases remaining(tokens, p), 16nat, 0nat,
{
    let (headed, clauses) = forward(p, for_clauses(tokens, p));
    match clauses {
        Some((initializer, test, increment)) => {
            let (read, body) = forward(headed, statement(tokens, headed));
            match body {
                Some(body) => for_loop(read, initializer, test, increment, body),
                None => (read, None),
            }
        },
        None => (headed, None),
    }
}

/// The declarations of a block up to its closing brace, after the opening
/// brace. `found` holds the statements read so far.
pub open spec fn block(
    tokens: Seq<Token>,
    p: Parse,
    found: Seq<usize>,
) -> (Parse, Option<Seq<usize>>)
    decreases remaining(tokens, p), 15nat, 0nat,
{
    if !check(tokens, p, TokenType::RightBrace) && !at_end(tokens, p) {
        let (read, item) = forward(p, declaration(tokens, p));
        match item {
            Some(item) => if read.current > p.current {
                block(tokens, read, found.push(item))
            } else {
                (read, None)
            },
            None => (read, None),
        }
    } else {
        let (closed, brace) = consume(tokens, p, TokenType::RightBrace, "Expect '}' after block."@);
        if brace is Some {
            (closed, Some(found))
        } else {
            (closed, None)
        }
    }
}

/// statement → exprStmt | forStmt | ifStmt | printStmt | returnStmt
///           | whileStmt | block
pub open spec fn statement(tokens: Seq<Token>, p: Parse) -> (Parse, Option<usize>)
    decreases remaining(tokens, p), 13nat, 0nat,
{
    let next = advance(tokens, p);
    if check(tokens, p, TokenType::For) {
        for_statement(tokens, next)
    } else if check(tokens, p, TokenType::If) {
        if_statement(tokens, next)
    } else if check(tokens, p, TokenType::Print) {
        print_statement(tokens, next)
    } else if check(tokens, p, TokenType::Return) {
        return_statement(tokens, next, peek(tokens, p))
    } else if check(tokens, p, TokenType::While) {
        while_statement(tokens, next)
    } else if check(tokens, p, TokenType::LeftBrace) {
        let (read, body) = block(tokens, next, Seq::empty());
        match body {
            Some(body) => stmt(read, StmtView::Block(body)),
            None => (read, None),
        }
    } else {
        expression_statement(tokens, p)
    }
}

/// The parameters of a function, after the opening parenthesis:
/// parameters → IDENTIFIER ( "," IDENTIFIER )*
/// `found` holds the parameters read so far. More than 255 parameters are
/// reported, and read all the same.
pub open spec fn parameters(
    tokens: Seq<Token>,
    p: Parse,
    found: Seq<Token>,
) -> (Parse, Option<Seq<Token>>)
    decreases remaining(tokens, p), 0nat, 0nat,
{
    let counted = if found.len() >= 255 {
        fail(p, peek(tokens, p), "Can't have more than 255 parameters."@)
    } else {
        p
    };
    let (read, name) = consume(tokens, counted, TokenType::Identifier, "Expect parameter name."@);
    match name {
        Some(name) => if check(tokens, read, TokenType::Comma) {
            parameters(tokens, advance(tokens, read), found.push(name))
        } else {
            (read, Some(found.push(name)))
        },
        None => (read, None),
    }
}

/// The name and the parameter list of a function or method (`kind` says
/// which), up to the opening brace of its body.
pub open spec fn function_head(
    tokens: Seq<Token>,
    p: Parse,
    kind: Seq<char>,
) -> (Parse, Option<(Token, Seq<Token>)>) {
    let (named, name) = consume(tokens, p, TokenType::Identifier, "Expect "@ + kind + " name."@);
    match name {
        Some(name) => {
            let (opened, paren) = consume(
                tokens,
                named,
                TokenType::LeftParen,
                "Expect '(' after "@ + kind + " name."@,
            );
            if paren is None {
                (opened, None)
            } else {
                let (listed, params) = if check(tokens, opened, TokenType::RightParen) {
                    (opened, Some(Seq::<Token>::empty()))
                } else {
                    parameters(tokens, opened, Seq::empty())
                };
                match params {
                    Some(params) => {
                        let (closed, close) = consume(
                            tokens,
                            listed,
                            TokenType::RightParen,
                            "Expect ')' after parameters."@,
                        );
                        if close is None {
                            (closed, None)
                        } else {
                            let (braced, brace) = consume(
                                tokens,
                                closed,
                                TokenType::LeftBrace,
                                "Expect '{' before "@ + kind + " body."@,
                            );
                            if brace is None {
                                (braced, None)
                            } else {
                                (braced, Some((name, params)))
                            }
                        }
                    },
                    None => (listed, None),
                }
            }
        },
        None => (named, None),
    }
}

/// function → IDENTIFIER "(" parameters? ")" block
pub open spec fn function(tokens: Seq<Token>, p: Parse, kind: Seq<char>) -> (Parse, Option<usize>)
    decreases remaining(tokens, p), 16nat, 0nat,
{
    let (headed, head) = forward(p, function_head(tokens, p, kind));
    match head {
        Some((name, params)) => {
            let (read, body) = block(tokens, headed, Seq::empty());
            match body {
                Some(body) => stmt(read, StmtView::Function { name, params, body }),
                None => (read, None),
            }
        },
        None => (headed, None),
    }
}

/// The methods of a class up to the closing brace of its body. `found`
/// holds the methods read so far.
pub open spec fn methods(
    tokens: Seq<Token>,
    p: Parse,
    found: Seq<usize>,
) -> (Parse, Option<Seq<usize>>)
    decreases remaining(tokens, p), 17nat, 0nat,
{
    if !check(tokens, p, TokenType::RightBrace) && !at_end(tokens, p) {
        let (read, method) = forward(p, function(tokens, p, "method"@));
        match method {
            Some(method) => if read.current > p.current {
                methods(tokens, read, found.push(method))
            } else {
                (read, None)
            },
            None => (read, None),
        }
    } else {
        let (closed, brace) = consume(
            tokens,
            p,
            TokenType::RightBrace,
            "Expect '}' after class body."@,
        );
        if brace is Some {
            (closed, Some(found))
        } else {
            (closed, None)
        }
    }
}

/// The superclass of a class, if one is written: ( "<" IDENTIFIER )?
/// It is read as a variable.
pub open spec fn superclass(tokens: Seq<Token>, p: Parse) -> (Parse, Option<Option<usize>>) {
    if check(tokens, p, TokenType::Less) {
        let (named, name) = consume(
            tokens,
            advance(tokens, p),
            TokenType::Identifier,
            "Expect superclass name."@,
        );
        match name {
            Some(name) => {
                let (made, variable) = expr(named, ExprView::Variable(name));
                (made, Some(variable))
            },
            None => (named, None),
        }
    } else {
        (p, Some(None))
    }
}

/// classDecl → "class" IDENTIFIER ( "<" IDENTIFIER )? "{" function* "}",
/// after the keyword.
pub open spec fn class_declaration(tokens: Seq<Token>, p: Parse) -> (Parse, Option<usize>)
    decreases remaining(tokens, p), 18nat, 0nat,
{
    let (named, name) = consume(tokens, p, TokenType::Identifier, "Expect class name."@);
    match name {
        Some(name) => {
            let (derived, parent) = superclass(tokens, named);
            match parent {
                Some(parent) => {
                    let (opened, brace) = consume(
                        tokens,
                        derived,
                        TokenType::LeftBrace,
                        "Expect '{' before class body."@,
                    );
                    if brace is None {
                        (opened, None)
                    } else {
                        let (read, found) = forward(p, methods(tokens, opened, Seq::empty()));
                        match found {
                            Some(found) => stmt(
                                read,
                                StmtView::Class { name, superclass: parent, methods: found },
                            ),
                            None => (read, None),
                        }
                    }
                },
                None => (derived, None),
            }
        },
        None => (named, None),
    }
}

/// declaration → classDecl | funDecl | varDecl | statement
pub open spec fn declaration(tokens: Seq<Token>, p: Parse) -> (Parse, Option<usize>)
    decreases remaining(tokens, p), 14nat, 0nat,
{
    let next = advance(tokens, p);
    if check(tokens, p, TokenType::Class) {
        class_declaration(tokens, next)
    } else if check(tokens, p, TokenType::Fun) {
        function(tokens, next, "function"@)
    } else if check(tokens, p, TokenType::Var) {
        var_declaration(tokens, next)
    } else {
        statement(tokens, p)
    }
}

/// Whether a statement may start with a token of kind `kind`, so that
/// parsing can take up again there after an error.
pub open spec fn starts_statement(kind: TokenType) -> bool {
    kind == TokenType::Class || kind == TokenType::Fun || kind == TokenType::Var || kind
        == TokenType::For || kind == TokenType::If || kind == TokenType::While || kind
        == TokenType::Print || kind == TokenType::Return
}

/// Where parsing takes up again when it skips from the token at `at` on:
/// at the first token with which a statement may start, or whose
/// predecessor is a semicolon, or that ends the text.
pub open spec fn skip(tokens: Seq<Token>, at: nat) -> nat
    decreases tokens.len() - at,
{
    if at >= tokens.len() || tokens[at as int].token_type == TokenType::Eof {
        at
    } else if at > 0 && tokens[at - 1].token_type == TokenType::SemiColon {
        at
    } else if starts_statement(tokens[at as int].token_type) {
        at
    } else {
        skip(tokens, at + 1)
    }
}

/// After an error: leave the token at which it was found behind and skip
/// to where a statement may start.
pub open spec fn synchronize(tokens: Seq<Token>, p: Parse) -> Parse {
    Parse { current: skip(tokens, advance(tokens, p).current), ..p }
}

/// A declaration at the top level of a program.
#[verifier::opaque]
pub open spec fn top_declaration(tokens: Seq<Token>, p: Parse) -> (Parse, Option<usize>) {
    declaration(tokens, p)
}

/// program → declaration* EOF
///
/// `found` holds the statements read so far. A declaration with a syntax
/// error is left out, and parsing takes up again behind it.
pub open spec fn program(tokens: Seq<Token>, p: Parse, found: Seq<usize>) -> (Parse, Seq<usize>)
    decreases remaining(tokens, p),
{
    if at_end(tokens, p) {
        (p, found)
    } else {
        let (read, item) = forward(p, top_declaration(tokens, p));
        match item {
            Some(item) => if read.current > p.current {
                program(tokens, read, found.push(item))
            } else {
                (read, found)
            },
            None => {
                let resumed = synchronize(tokens, read);
                if resumed.current > p.current {
                    program(tokens, resumed, found)
                } else {
                    (resumed, found)
                }
            },
        }
    }
}

} // verus!
