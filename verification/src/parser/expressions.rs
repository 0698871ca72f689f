//! Expressions.

use vstd::prelude::*;

use crate::ast::{Ast, Expr};
use crate::grammar;
use crate::grammar::Parse;
use crate::lox::Diagnostics;
use crate::lox_type::LoxType;
use crate::parser::{kept, ok, ok_seq, state, ParseError, Parser};
use crate::token::Token;
use crate::token_type::TokenType;

verus! {

/// The value of a number or string token, if it carries one that may
/// stand in a literal expression.
fn literal_of(token: &Token) -> (value: Option<LoxType>)
    ensures
        value is Some == grammar::literal_value(token.literal),
        value matches Some(v) ==> token.literal == Some(v),
{
    match &token.literal {
        Some(value) => match value {
            LoxType::Boolean(_) | LoxType::Nil | LoxType::Number(_) | LoxType::String(_) => Some(
                value.clone(),
            ),
            _ => None,
        },
        None => None,
    }
}

/// Whether a token of kind `kind` is a binary operator of `level`.
fn is_operator_at(level: usize, kind: TokenType) -> (result: bool)
    ensures
        result == grammar::operator_at(level as nat, kind),
{
    if level == 0 {
        kind == TokenType::Or
    } else if level == 1 {
        kind == TokenType::And
    } else if level == 2 {
        kind == TokenType::BangEqual || kind == TokenType::EqualEqual
    } else if level == 3 {
        kind == TokenType::Greater || kind == TokenType::GreaterEqual || kind == TokenType::Less
            || kind == TokenType::LessEqual
    } else if level == 4 {
        kind == TokenType::Minus || kind == TokenType::Plus
    } else {
        kind == TokenType::Slash || kind == TokenType::Star
    }
}

impl Parser {
    /// "super" "." IDENTIFIER, after the keyword.
    pub(super) fn super_method(
        &mut self,
        ast: &mut Ast,
        diagnostics: &mut Diagnostics,
        keyword: Token,
    ) -> (result: Result<usize, ParseError>)
        requires
            old(self).wf(),
            old(ast).wf(),
        ensures
            kept(old(self), old(ast), final(self), final(ast)),
            (state(final(self)@, final(ast), final(diagnostics)), ok(result))
                == grammar::super_method(
                old(self)@.tokens,
                state(old(self)@, old(ast), old(diagnostics)),
                keyword,
            ),
            result matches Ok(id) ==> id < final(ast).exprs.len(),
            result is Ok ==> old(self)@.current < final(self)@.current,
        decreases old(self)@.tokens.len() - old(self)@.current, 0nat, 0nat,
    {
        self.consume(ast, diagnostics, TokenType::Dot, "Expect '.' after 'super'.")?;
        let method = self.consume(
            ast,
            diagnostics,
            TokenType::Identifier,
            "Expect superclass method name.",
        )?;
        Ok(ast.push_expr(Expr::Super { keyword, method }))
    }

    /// Reads an expression and the token of kind `token_type` behind it.
    pub(super) fn expression_then(
        &mut self,
        ast: &mut Ast,
        diagnostics: &mut Diagnostics,
        token_type: TokenType,
        message: &str,
    ) -> (result: Result<usize, ParseError>)
        requires
            old(self).wf(),
            old(ast).wf(),
        ensures
            kept(old(self), old(ast), final(self), final(ast)),
            (state(final(self)@, final(ast), final(diagnostics)), ok(result))
                == grammar::expression_then(
                old(self)@.tokens,
                state(old(self)@, old(ast), old(diagnostics)),
                token_type,
                message@,
            ),
            result matches Ok(id) ==> id < final(ast).exprs.len(),
            result is Ok ==> old(self)@.current < final(self)@.current,
        decreases old(self)@.tokens.len() - old(self)@.current, 11nat, 0nat,
    {
        let value = self.expression(ast, diagnostics)?;
        self.consume(ast, diagnostics, token_type, message)?;
        Ok(value)
    }

    /// "(" expression ")", after the opening parenthesis.
    pub(super) fn grouping(
        &mut self,
        ast: &mut Ast,
        diagnostics: &mut Diagnostics,
    ) -> (result: Result<usize, ParseError>)
        requires
            old(self).wf(),
            old(ast).wf(),
        ensures
            kept(old(self), old(ast), final(self), final(ast)),
            (state(final(self)@, final(ast), final(diagnostics)), ok(result)) == grammar::grouping(
                old(self)@.tokens,
                state(old(self)@, old(ast), old(diagnostics)),
            ),
            result matches Ok(id) ==> id < final(ast).exprs.len(),
            result is Ok ==> old(self)@.current < final(self)@.current,
        decreases old(self)@.tokens.len() - old(self)@.current, 12nat, 0nat,
    {
        let inner = self.expression_then(
            ast,
            diagnostics,
            TokenType::RightParen,
            "Expect ')' after expression.",
        )?;
        Ok(ast.push_expr(Expr::Grouping(inner)))
    }

    /// The literal that the current token is, if it is one.
    pub(super) fn literal(&self) -> (value: Option<LoxType>)
        requires
            self.wf(),
        ensures
            forall|p: Parse|
                p.current == self@.current ==> value == #[trigger] grammar::literal(self@.tokens, p),
            value matches Some(v) ==> crate::ast::is_primitive(v@),
    {
        let token = &self.tokens[self.current];
        let kind = token.token_type;
        if kind == TokenType::False {
            Some(LoxType::Boolean(false))
        } else if kind == TokenType::True {
            Some(LoxType::Boolean(true))
        } else if kind == TokenType::Nil {
            Some(LoxType::Nil)
        } else if kind == TokenType::Number || kind == TokenType::String {
            literal_of(token)
        } else {
            None
        }
    }

    /// primary → "true" | "false" | "nil" | "this" | NUMBER | STRING
    ///         | IDENTIFIER | "(" expression ")" | "super" "." IDENTIFIER
    pub(super) fn primary(
        &mut self,
        ast: &mut Ast,
        diagnostics: &mut Diagnostics,
    ) -> (result: Result<usize, ParseError>)
        requires
            old(self).wf(),
            old(ast).wf(),
        ensures
            kept(old(self), old(ast), final(self), final(ast)),
            (state(final(self)@, final(ast), final(diagnostics)), ok(result)) == grammar::primary(
                old(self)@.tokens,
                state(old(self)@, old(ast), old(diagnostics)),
            ),
            result matches Ok(id) ==> id < final(ast).exprs.len(),
            result is Ok ==> old(self)@.current < final(self)@.current,
        decreases old(self)@.tokens.len() - old(self)@.current, 0nat, 0nat,
    {
        let kind = self.tokens[self.current].token_type;
        let literal = self.literal();
        assert(literal == grammar::literal(self@.tokens, state(self@, ast, diagnostics)));
        if let Some(value) = literal {
            self.advance();
            Ok(ast.push_expr(Expr::Literal(value)))
        } else if kind == TokenType::Super {
            let keyword = self.advance();
            self.super_method(ast, diagnostics, keyword)
        } else if kind == TokenType::This {
            let keyword = self.advance();
            Ok(ast.push_expr(Expr::This(keyword)))
        } else if kind == TokenType::Identifier {
            let name = self.advance();
            Ok(ast.push_expr(Expr::Variable(name)))
        } else if kind == TokenType::LeftParen {
            self.advance();
            self.grouping(ast, diagnostics)
        } else {
            proof {
                ast.lemma_extends_itself();
            }
            let token = self.tokens[self.current].clone();
            Err(self.error(diagnostics, &token, "Expect expression."))
        }
    }

    /// The arguments of a call, after the opening parenthesis. `found`
    /// holds the arguments read so far.
    pub(super) fn arguments(
        &mut self,
        ast: &mut Ast,
        diagnostics: &mut Diagnostics,
        found: Vec<usize>,
    ) -> (result: Result<Vec<usize>, ParseError>)
        requires
            old(self).wf(),
            old(ast).wf(),
            forall|i: int| 0 <= i < found.len() ==> #[trigger] found[i] < old(ast).exprs.len(),
        ensures
            kept(old(self), old(ast), final(self), final(ast)),
            (state(final(self)@, final(ast), final(diagnostics)), ok_seq(result))
                == grammar::arguments(
                old(self)@.tokens,
                state(old(self)@, old(ast), old(diagnostics)),
                found@,
            ),
            result is Ok ==> old(self)@.current < final(self)@.current,
            result matches Ok(all) ==> forall|i: int| 0 <= i < all.len() ==> #[trigger] all[i] < final(ast).exprs.len(),
        decreases old(self)@.tokens.len() - old(self)@.current, 11nat, 0nat,
    {
        let mut found = found;
        if found.len() >= 255 {
            let token = self.tokens[self.current].clone();
            self.error(diagnostics, &token, "Can't have more than 255 arguments.");
        }
        let argument = self.expression(ast, diagnostics)?;
        found.push(argument);
        if self.check(TokenType::Comma) {
            self.advance();
            self.arguments(ast, diagnostics, found)
        } else {
            Ok(found)
        }
    }

    /// The rest of a call, after the opening parenthesis.
    pub(super) fn finish_call(
        &mut self,
        ast: &mut Ast,
        diagnostics: &mut Diagnostics,
        callee: usize,
    ) -> (result: Result<usize, ParseError>)
        requires
            old(self).wf(),
            old(ast).wf(),
            callee < old(ast).exprs.len(),
        ensures
            kept(old(self), old(ast), final(self), final(ast)),
            (state(final(self)@, final(ast), final(diagnostics)), ok(result))
                == grammar::finish_call(
                old(self)@.tokens,
                state(old(self)@, old(ast), old(diagnostics)),
                callee,
            ),
            result matches Ok(id) ==> id < final(ast).exprs.len(),
            result is Ok ==> old(self)@.current < final(self)@.current,
        decreases old(self)@.tokens.len() - old(self)@.current, 12nat, 0nat,
    {
        let found = if self.check(TokenType::RightParen) {
            proof {
                ast.lemma_extends_itself();
            }
            Vec::new()
        } else {
            self.arguments(ast, diagnostics, Vec::new())?
        };
        let paren = self.consume(
            ast,
            diagnostics,
            TokenType::RightParen,
            "Expect ')' after arguments.",
        )?;
        Ok(ast.push_expr(Expr::Call { callee, paren, arguments: found }))
    }

    /// What follows a primary expression: calls and property reads.
    pub(super) fn call_tail(
        &mut self,
        ast: &mut Ast,
        diagnostics: &mut Diagnostics,
        callee: usize,
    ) -> (result: Result<usize, ParseError>)
        requires
            old(self).wf(),
            old(ast).wf(),
            callee < old(ast).exprs.len(),
        ensures
            kept(old(self), old(ast), final(self), final(ast)),
            (state(final(self)@, final(ast), final(diagnostics)), ok(result)) == grammar::call_tail(
                old(self)@.tokens,
                state(old(self)@, old(ast), old(diagnostics)),
                callee,
            ),
            result matches Ok(id) ==> id < final(ast).exprs.len(),
        decreases old(self)@.tokens.len() - old(self)@.current, 0nat, 0nat,
    {
        if self.check(TokenType::LeftParen) {
            self.advance();
            let called = self.finish_call(ast, diagnostics, callee)?;
            self.call_tail(ast, diagnostics, called)
        } else if self.check(TokenType::Dot) {
            self.advance();
            let name = self.consume(
                ast,
                diagnostics,
                TokenType::Identifier,
                "Expect property name after '.'.",
            )?;
            let object = ast.push_expr(Expr::Get { object: callee, name });
            self.call_tail(ast, diagnostics, object)
        } else {
            proof {
                ast.lemma_extends_itself();
            }
            Ok(callee)
        }
    }

    /// call → primary ( "(" arguments? ")" | "." IDENTIFIER )*
    pub(super) fn call(
        &mut self,
        ast: &mut Ast,
        diagnostics: &mut Diagnostics,
    ) -> (result: Result<usize, ParseError>)
        requires
            old(self).wf(),
            old(ast).wf(),
        ensures
            kept(old(self), old(ast), final(self), final(ast)),
            (state(final(self)@, final(ast), final(diagnostics)), ok(result)) == grammar::call(
                old(self)@.tokens,
                state(old(self)@, old(ast), old(diagnostics)),
            ),
            result matches Ok(id) ==> id < final(ast).exprs.len(),
            result is Ok ==> old(self)@.current < final(self)@.current,
        decreases old(self)@.tokens.len() - old(self)@.current, 1nat, 0nat,
    {
        let callee = self.primary(ast, diagnostics)?;
        self.call_tail(ast, diagnostics, callee)
    }

    /// unary → ( "!" | "-" ) unary | call
    pub(super) fn unary(
        &mut self,
        ast: &mut Ast,
        diagnostics: &mut Diagnostics,
    ) -> (result: Result<usize, ParseError>)
        requires
            old(self).wf(),
            old(ast).wf(),
        ensures
            kept(old(self), old(ast), final(self), final(ast)),
            (state(final(self)@, final(ast), final(diagnostics)), ok(result)) == grammar::unary(
                old(self)@.tokens,
                state(old(self)@, old(ast), old(diagnostics)),
            ),
            result matches Ok(id) ==> id < final(ast).exprs.len(),
            result is Ok ==> old(self)@.current < final(self)@.current,
        decreases old(self)@.tokens.len() - old(self)@.current, 2nat, 0nat,
    {
        if self.check(TokenType::Bang) || self.check(TokenType::Minus) {
            let operator = self.advance();
            let right = self.unary(ast, diagnostics)?;
            Ok(ast.push_expr(Expr::Unary { operator, right }))
        } else {
            self.call(ast, diagnostics)
        }
    }

    /// An operand of a binary operator of `level`.
    pub(super) fn operand(
        &mut self,
        ast: &mut Ast,
        diagnostics: &mut Diagnostics,
        level: usize,
    ) -> (result: Result<usize, ParseError>)
        requires
            old(self).wf(),
            old(ast).wf(),
        ensures
            kept(old(self), old(ast), final(self), final(ast)),
            (state(final(self)@, final(ast), final(diagnostics)), ok(result)) == grammar::operand(
                old(self)@.tokens,
                state(old(self)@, old(ast), old(diagnostics)),
                level as nat,
            ),
            result matches Ok(id) ==> id < final(ast).exprs.len(),
            result is Ok ==> old(self)@.current < final(self)@.current,
        decreases old(self)@.tokens.len() - old(self)@.current, 3nat,
            2 * grammar::levels_below(level as nat) + 1,
    {
        if level < 5 {
            self.binary(ast, diagnostics, level + 1)
        } else {
            self.unary(ast, diagnostics)
        }
    }

    /// What follows the first operand at `level`: operators of the level,
    /// each with its right operand.
    pub(super) fn binary_tail(
        &mut self,
        ast: &mut Ast,
        diagnostics: &mut Diagnostics,
        left: usize,
        level: usize,
    ) -> (result: Result<usize, ParseError>)
        requires
            old(self).wf(),
            old(ast).wf(),
            left < old(ast).exprs.len(),
        ensures
            kept(old(self), old(ast), final(self), final(ast)),
            (state(final(self)@, final(ast), final(diagnostics)), ok(result))
                == grammar::binary_tail(
                old(self)@.tokens,
                state(old(self)@, old(ast), old(diagnostics)),
                left,
                level as nat,
            ),
            result matches Ok(id) ==> id < final(ast).exprs.len(),
        decreases old(self)@.tokens.len() - old(self)@.current, 0nat, 0nat,
    {
        let kind = self.tokens[self.current].token_type;
        if kind != TokenType::Eof && is_operator_at(level, kind) {
            let operator = self.advance();
            let right = self.operand(ast, diagnostics, level)?;
            let node = if level < 2 {
                Expr::Logical { left, operator, right }
            } else {
                Expr::Binary { left, operator, right }
            };
            let made = ast.push_expr(node);
            self.binary_tail(ast, diagnostics, made, level)
        } else {
            proof {
                ast.lemma_extends_itself();
            }
            Ok(left)
        }
    }

    /// An expression of binary operators of `level` and tighter: `or` at
    /// level 0, `and` at 1, equality at 2, comparison at 3, sum and
    /// difference at 4, product and quotient at 5.
    pub(super) fn binary(
        &mut self,
        ast: &mut Ast,
        diagnostics: &mut Diagnostics,
        level: usize,
    ) -> (result: Result<usize, ParseError>)
        requires
            old(self).wf(),
            old(ast).wf(),
        ensures
            kept(old(self), old(ast), final(self), final(ast)),
            (state(final(self)@, final(ast), final(diagnostics)), ok(result)) == grammar::binary(
                old(self)@.tokens,
                state(old(self)@, old(ast), old(diagnostics)),
                level as nat,
            ),
            result matches Ok(id) ==> id < final(ast).exprs.len(),
            result is Ok ==> old(self)@.current < final(self)@.current,
        decreases old(self)@.tokens.len() - old(self)@.current, 3nat,
            2 * grammar::levels_below(level as nat) + 2,
    {
        let left = self.operand(ast, diagnostics, level)?;
        self.binary_tail(ast, diagnostics, left, level)
    }

    /// Makes the node that assigns expression `value` to the target that
    /// expression `target` names.
    pub(super) fn assign(
        &self,
        ast: &mut Ast,
        diagnostics: &mut Diagnostics,
        equals: &Token,
        target: usize,
        value: usize,
    ) -> (result: Result<usize, ParseError>)
        requires
            self.wf(),
            old(ast).wf(),
            target < old(ast).exprs.len(),
            value < old(ast).exprs.len(),
        ensures
            final(ast).wf(),
            final(ast).extends(old(ast)),
            (state(self@, final(ast), final(diagnostics)), ok(result)) == grammar::assign(
                state(self@, old(ast), old(diagnostics)),
                *equals,
                target,
                value,
            ),
            result matches Ok(id) ==> id < final(ast).exprs.len(),
    {
        proof {
            ast.lemma_expr_wf(target as int);
        }
        assert(ast.expr_views()[target as int] == ast.exprs[target as int]@);
        let node = match &ast.exprs[target] {
            Expr::Variable(name) => Some(Expr::Assign { name: name.clone(), value }),
            Expr::Get { object, name } => Some(
                Expr::SetProperty { object: *object, name: name.clone(), value },
            ),
            _ => None,
        };
        match node {
            Some(node) => Ok(ast.push_expr(node)),
            None => {
                proof {
                    ast.lemma_extends_itself();
                }
                Err(self.error(diagnostics, equals, "Invalid assignment target."))
            },
        }
    }

    /// assignment → ( call "." )? IDENTIFIER "=" assignment | logic_or
    pub(super) fn assignment(
        &mut self,
        ast: &mut Ast,
        diagnostics: &mut Diagnostics,
    ) -> (result: Result<usize, ParseError>)
        requires
            old(self).wf(),
            old(ast).wf(),
        ensures
            kept(old(self), old(ast), final(self), final(ast)),
            (state(final(self)@, final(ast), final(diagnostics)), ok(result))
                == grammar::assignment(
                old(self)@.tokens,
                state(old(self)@, old(ast), old(diagnostics)),
            ),
            result matches Ok(id) ==> id < final(ast).exprs.len(),
            result is Ok ==> old(self)@.current < final(self)@.current,
        decreases old(self)@.tokens.len() - old(self)@.current, 9nat, 0nat,
    {
        let target = self.binary(ast, diagnostics, 0)?;
        if self.check(TokenType::Equal) {
            let equals = self.advance();
            let value = self.assignment(ast, diagnostics)?;
            self.assign(ast, diagnostics, &equals, target, value)
        } else {
            Ok(target)
        }
    }

    /// expression → assignment
    pub(super) fn expression(
        &mut self,
        ast: &mut Ast,
        diagnostics: &mut Diagnostics,
    ) -> (result: Result<usize, ParseError>)
        requires
            old(self).wf(),
            old(ast).wf(),
        ensures
            kept(old(self), old(ast), final(self), final(ast)),
            (state(final(self)@, final(ast), final(diagnostics)), ok(result))
                == grammar::expression(
                old(self)@.tokens,
                state(old(self)@, old(ast), old(diagnostics)),
            ),
            result matches Ok(id) ==> id < final(ast).exprs.len(),
            result is Ok ==> old(self)@.current < final(self)@.current,
        decreases old(self)@.tokens.len() - old(self)@.current, 10nat, 0nat,
    {
        self.assignment(ast, diagnostics)
    }
}

} // verus!
