//! Statements and declarations.

use vstd::prelude::*;

use crate::ast::{names_functions, Ast, Expr, Stmt};
use crate::grammar;
use crate::lox::Diagnostics;
use crate::lox_type::LoxType;
use crate::parser::{kept, ok, ok_head, ok_seq, state, statements_of, ParseError, Parser};
use crate::text::join3;
use crate::token::Token;
use crate::token_type::TokenType;

verus! {

impl Parser {
    /// exprStmt → expression ";"
    pub(super) fn expression_statement(
        &mut self,
        ast: &mut Ast,
        diagnostics: &mut Diagnostics,
    ) -> (result: Result<usize, ParseError>)
        requires
            old(self).wf(),
            old(ast).wf(),
        ensures
            kept(old(self), old(ast), final(self), final(ast)),
            (state(final(self)@, final(ast), final(diagnostics)), ok(result))
                == grammar::expression_statement(
                old(self)@.tokens,
                state(old(self)@, old(ast), old(diagnostics)),
            ),
            result matches Ok(id) ==> id < final(ast).stmts.len(),
            result is Ok ==> old(self)@.current < final(self)@.current,
        decreases old(self)@.tokens.len() - old(self)@.current, 12nat, 0nat,
    {
        let value = self.expression_then(
            ast,
            diagnostics,
            TokenType::SemiColon,
            "Expect ';' after expression.",
        )?;
        Ok(ast.push_stmt(Stmt::Expression(value)))
    }

    /// printStmt → "print" expression ";", after the keyword.
    pub(super) fn print_statement(
        &mut self,
        ast: &mut Ast,
        diagnostics: &mut Diagnostics,
    ) -> (result: Result<usize, ParseError>)
        requires
            old(self).wf(),
            old(ast).wf(),
        ensures
            kept(old(self), old(ast), final(self), final(ast)),
            (state(final(self)@, final(ast), final(diagnostics)), ok(result))
                == grammar::print_statement(
                old(self)@.tokens,
                state(old(self)@, old(ast), old(diagnostics)),
            ),
            result matches Ok(id) ==> id < final(ast).stmts.len(),
            result is Ok ==> old(self)@.current < final(self)@.current,
        decreases old(self)@.tokens.len() - old(self)@.current, 12nat, 0nat,
    {
        let value = self.expression_then(
            ast,
            diagnostics,
            TokenType::SemiColon,
            "Expect ';' after value.",
        )?;
        Ok(ast.push_stmt(Stmt::Print(value)))
    }

    /// returnStmt → "return" expression? ";", after the keyword.
    pub(super) fn return_statement(
        &mut self,
        ast: &mut Ast,
        diagnostics: &mut Diagnostics,
        keyword: Token,
    ) -> (result: Result<usize, ParseError>)
        requires
            old(self).wf(),
            old(ast).wf(),
        ensures
            kept(old(self), old(ast), final(self), final(ast)),
            (state(final(self)@, final(ast), final(diagnostics)), ok(result))
                == grammar::return_statement(
                old(self)@.tokens,
                state(old(self)@, old(ast), old(diagnostics)),
                keyword,
            ),
            result matches Ok(id) ==> id < final(ast).stmts.len(),
            result is Ok ==> old(self)@.current < final(self)@.current,
        decreases old(self)@.tokens.len() - old(self)@.current, 12nat, 0nat,
    {
        let value = if self.check(TokenType::SemiColon) {
            ast.push_expr(Expr::Literal(LoxType::Nil))
        } else {
            self.expression(ast, diagnostics)?
        };
        self.consume(ast, diagnostics, TokenType::SemiColon, "Expect ';' after return value.")?;
        Ok(ast.push_stmt(Stmt::Return { keyword, value }))
    }

    /// varDecl → "var" IDENTIFIER ( "=" expression )? ";", after the keyword.
    pub(super) fn var_declaration(
        &mut self,
        ast: &mut Ast,
        diagnostics: &mut Diagnostics,
    ) -> (result: Result<usize, ParseError>)
        requires
            old(self).wf(),
            old(ast).wf(),
        ensures
            kept(old(self), old(ast), final(self), final(ast)),
            (state(final(self)@, final(ast), final(diagnostics)), ok(result))
                == grammar::var_declaration(
                old(self)@.tokens,
                state(old(self)@, old(ast), old(diagnostics)),
            ),
            result matches Ok(id) ==> id < final(ast).stmts.len(),
            result is Ok ==> old(self)@.current < final(self)@.current,
        decreases old(self)@.tokens.len() - old(self)@.current, 12nat, 0nat,
    {
        let name = self.consume(ast, diagnostics, TokenType::Identifier, "Expect variable name.")?;
        let initializer = if self.check(TokenType::Equal) {
            self.advance();
            self.expression(ast, diagnostics)?
        } else {
            ast.push_expr(Expr::Literal(LoxType::Nil))
        };
        self.consume(
            ast,
            diagnostics,
            TokenType::SemiColon,
            "Expect ';' after variable declaration.",
        )?;
        Ok(ast.push_stmt(Stmt::Var { name, initializer }))
    }

    /// The condition of an `if` or a `while` in its parentheses.
    pub(super) fn condition(
        &mut self,
        ast: &mut Ast,
        diagnostics: &mut Diagnostics,
        open_message: &str,
        close_message: &str,
    ) -> (result: Result<usize, ParseError>)
        requires
            old(self).wf(),
            old(ast).wf(),
        ensures
            kept(old(self), old(ast), final(self), final(ast)),
            (state(final(self)@, final(ast), final(diagnostics)), ok(result)) == grammar::condition(
                old(self)@.tokens,
                state(old(self)@, old(ast), old(diagnostics)),
                open_message@,
                close_message@,
            ),
            result matches Ok(id) ==> id < final(ast).exprs.len(),
            result is Ok ==> old(self)@.current < final(self)@.current,
        decreases old(self)@.tokens.len() - old(self)@.current, 12nat, 0nat,
    {
        self.consume(ast, diagnostics, TokenType::LeftParen, open_message)?;
        self.expression_then(ast, diagnostics, TokenType::RightParen, close_message)
    }

    /// A condition in its parentheses and the statement that it guards.
    pub(super) fn guarded(
        &mut self,
        ast: &mut Ast,
        diagnostics: &mut Diagnostics,
        open_message: &str,
        close_message: &str,
    ) -> (result: Result<(usize, usize), ParseError>)
        requires
            old(self).wf(),
            old(ast).wf(),
        ensures
            kept(old(self), old(ast), final(self), final(ast)),
            (state(final(self)@, final(ast), final(diagnostics)), ok(result)) == grammar::guarded(
                old(self)@.tokens,
                state(old(self)@, old(ast), old(diagnostics)),
                open_message@,
                close_message@,
            ),
            result matches Ok((test, body)) ==> test < final(ast).exprs.len() && body < final(ast).stmts.len(),
            result is Ok ==> old(self)@.current < final(self)@.current,
        decreases old(self)@.tokens.len() - old(self)@.current, 15nat, 1nat,
    {
        let test = self.condition(ast, diagnostics, open_message, close_message)?;
        let body = self.statement(ast, diagnostics)?;
        Ok((test, body))
    }

    /// ifStmt → "if" "(" expression ")" statement ( "else" statement )?,
    /// after the keyword.
    pub(super) fn if_statement(
        &mut self,
        ast: &mut Ast,
        diagnostics: &mut Diagnostics,
    ) -> (result: Result<usize, ParseError>)
        requires
            old(self).wf(),
            old(ast).wf(),
        ensures
            kept(old(self), old(ast), final(self), final(ast)),
            (state(final(self)@, final(ast), final(diagnostics)), ok(result))
                == grammar::if_statement(
                old(self)@.tokens,
                state(old(self)@, old(ast), old(diagnostics)),
            ),
            result matches Ok(id) ==> id < final(ast).stmts.len(),
            result is Ok ==> old(self)@.current < final(self)@.current,
        decreases old(self)@.tokens.len() - old(self)@.current, 16nat, 0nat,
    {
        let (condition, then_branch) = self.guarded(
            ast,
            diagnostics,
            "Expect '(' after 'if'.",
            "Expect ')' after if condition.",
        )?;
        let opt_else_branch = if self.check(TokenType::Else) {
            self.advance();
            Some(self.statement(ast, diagnostics)?)
        } else {
            None
        };
        Ok(ast.push_stmt(Stmt::If { condition, then_branch, opt_else_branch }))
    }

    /// whileStmt → "while" "(" expression ")" statement, after the keyword.
    pub(super) fn while_statement(
        &mut self,
        ast: &mut Ast,
        diagnostics: &mut Diagnostics,
    ) -> (result: Result<usize, ParseError>)
        requires
            old(self).wf(),
            old(ast).wf(),
        ensures
            kept(old(self), old(ast), final(self), final(ast)),
            (state(final(self)@, final(ast), final(diagnostics)), ok(result))
                == grammar::while_statement(
                old(self)@.tokens,
                state(old(self)@, old(ast), old(diagnostics)),
            ),
            result matches Ok(id) ==> id < final(ast).stmts.len(),
            result is Ok ==> old(self)@.current < final(self)@.current,
        decreases old(self)@.tokens.len() - old(self)@.current, 16nat, 0nat,
    {
        let (condition, body) = self.guarded(
            ast,
            diagnostics,
            "Expect '(' after 'while'.",
            "Expect ')' after condition.",
        )?;
        self.while_loop(ast, diagnostics, condition, body)
    }

    /// Makes the loop that runs statement `body` while expression `test`
    /// holds.
    fn while_loop(
        &self,
        ast: &mut Ast,
        diagnostics: &Diagnostics,
        test: usize,
        body: usize,
    ) -> (result: Result<usize, ParseError>)
        requires
            self.wf(),
            old(ast).wf(),
            test < old(ast).exprs.len(),
            body < old(ast).stmts.len(),
        ensures
            final(ast).wf(),
            final(ast).extends(old(ast)),
            (state(self@, final(ast), diagnostics), ok(result)) == grammar::while_loop(
                state(self@, old(ast), diagnostics),
                test,
                body,
            ),
            result matches Ok(id) ==> id < final(ast).stmts.len(),
    {
        Ok(ast.push_stmt(Stmt::While { condition: test, body }))
    }

    /// The first clause of a `for`.
    pub(super) fn for_initializer(
        &mut self,
        ast: &mut Ast,
        diagnostics: &mut Diagnostics,
    ) -> (result: Result<Option<usize>, ParseError>)
        requires
            old(self).wf(),
            old(ast).wf(),
        ensures
            kept(old(self), old(ast), final(self), final(ast)),
            (state(final(self)@, final(ast), final(diagnostics)), ok(result))
                == grammar::for_initializer(
                old(self)@.tokens,
                state(old(self)@, old(ast), old(diagnostics)),
            ),
            result matches Ok(Some(id)) ==> id < final(ast).stmts.len(),
            result is Ok ==> old(self)@.current < final(self)@.current,
        decreases old(self)@.tokens.len() - old(self)@.current, 13nat, 0nat,
    {
        if self.check(TokenType::SemiColon) {
            proof {
                ast.lemma_extends_itself();
            }
            self.advance();
            Ok(None)
        } else if self.check(TokenType::Var) {
            self.advance();
            Ok(Some(self.var_declaration(ast, diagnostics)?))
        } else {
            Ok(Some(self.expression_statement(ast, diagnostics)?))
        }
    }

    /// The second clause of a `for` with its semicolon.
    pub(super) fn for_condition(
        &mut self,
        ast: &mut Ast,
        diagnostics: &mut Diagnostics,
    ) -> (result: Result<usize, ParseError>)
        requires
            old(self).wf(),
            old(ast).wf(),
        ensures
            kept(old(self), old(ast), final(self), final(ast)),
            (state(final(self)@, final(ast), final(diagnostics)), ok(result))
                == grammar::for_condition(
                old(self)@.tokens,
                state(old(self)@, old(ast), old(diagnostics)),
            ),
            result matches Ok(id) ==> id < final(ast).exprs.len(),
            result is Ok ==> old(self)@.current < final(self)@.current,
        decreases old(self)@.tokens.len() - old(self)@.current, 13nat, 0nat,
    {
        if self.check(TokenType::SemiColon) {
            self.advance();
            Ok(ast.push_expr(Expr::Literal(LoxType::Boolean(true))))
        } else {
            self.expression_then(
                ast,
                diagnostics,
                TokenType::SemiColon,
                "Expect ';' after loop condition.",
            )
        }
    }

    /// The third clause of a `for` with the closing parenthesis.
    pub(super) fn for_increment(
        &mut self,
        ast: &mut Ast,
        diagnostics: &mut Diagnostics,
    ) -> (result: Result<Option<usize>, ParseError>)
        requires
            old(self).wf(),
            old(ast).wf(),
        ensures
            kept(old(self), old(ast), final(self), final(ast)),
            (state(final(self)@, final(ast), final(diagnostics)), ok(result))
                == grammar::for_increment(
                old(self)@.tokens,
                state(old(self)@, old(ast), old(diagnostics)),
            ),
            result matches Ok(Some(id)) ==> id < final(ast).exprs.len(),
            result is Ok ==> old(self)@.current < final(self)@.current,
        decreases old(self)@.tokens.len() - old(self)@.current, 13nat, 0nat,
    {
        if self.check(TokenType::RightParen) {
            proof {
                ast.lemma_extends_itself();
            }
            self.advance();
            Ok(None)
        } else {
            Ok(
                Some(
                    self.expression_then(
                        ast,
                        diagnostics,
                        TokenType::RightParen,
                        "Expect ')' after for clauses.",
                    )?,
                ),
            )
        }
    }

    /// Makes the loop that a `for` stands for.
    pub(super) fn for_loop(
        &self,
        ast: &mut Ast,
        diagnostics: &Diagnostics,
        initializer: Option<usize>,
        test: usize,
        increment: Option<usize>,
        body: usize,
    ) -> (result: Result<usize, ParseError>)
        requires
            self.wf(),
            old(ast).wf(),
            initializer matches Some(id) ==> id < old(ast).stmts.len(),
            test < old(ast).exprs.len(),
            increment matches Some(id) ==> id < old(ast).exprs.len(),
            body < old(ast).stmts.len(),
        ensures
            final(ast).wf(),
            final(ast).extends(old(ast)),
            (state(self@, final(ast), diagnostics), ok(result)) == grammar::for_loop(
                state(self@, old(ast), diagnostics),
                initializer,
                test,
                increment,
                body,
            ),
            result matches Ok(id) ==> id < final(ast).stmts.len(),
    {
        let inner = match increment {
            Some(increment) => {
                let step = ast.push_stmt(Stmt::Expression(increment));
                ast.push_stmt(Stmt::Block(vec![body, step]))
            },
            None => body,
        };
        let repeat = self.while_loop(ast, diagnostics, test, inner)?;
        match initializer {
            Some(initializer) => Ok(ast.push_stmt(Stmt::Block(vec![initializer, repeat]))),
            None => Ok(repeat),
        }
    }

    /// The three clauses of a `for` in their parentheses.
    pub(super) fn for_clauses(
        &mut self,
        ast: &mut Ast,
        diagnostics: &mut Diagnostics,
    ) -> (result: Result<(Option<usize>, usize, Option<usize>), ParseError>)
        requires
            old(self).wf(),
            old(ast).wf(),
        ensures
            kept(old(self), old(ast), final(self), final(ast)),
            (state(final(self)@, final(ast), final(diagnostics)), ok(result))
                == grammar::for_clauses(
                old(self)@.tokens,
                state(old(self)@, old(ast), old(diagnostics)),
            ),
            result matches Ok((initializer, test, increment)) ==> test < final(ast).exprs.len() && (
            initializer matches Some(id) ==> id < final(ast).stmts.len()) && (
            increment matches Some(id) ==> id < final(ast).exprs.len()),
            result is Ok ==> old(self)@.current < final(self)@.current,
        decreases old(self)@.tokens.len() - old(self)@.current, 14nat, 1nat,
    {
        self.consume(ast, diagnostics, TokenType::LeftParen, "Expect '(' after 'for'.")?;
        let initializer = self.for_initializer(ast, diagnostics)?;
        let test = self.for_condition(ast, diagnostics)?;
        let increment = self.for_increment(ast, diagnostics)?;
        Ok((initializer, test, increment))
    }

    /// forStmt → "for" "(" ( varDecl | exprStmt | ";" ) expression? ";"
    ///           expression? ")" statement, after the keyword.
    pub(super) fn for_statement(
        &mut self,
        ast: &mut Ast,
        diagnostics: &mut Diagnostics,
    ) -> (result: Result<usize, ParseError>)
        requires
            old(self).wf(),
            old(ast).wf(),
        ensures
            kept(old(self), old(ast), final(self), final(ast)),
            (state(final(self)@, final(ast), final(diagnostics)), ok(result))
                == grammar::for_statement(
                old(self)@.tokens,
                state(old(self)@, old(ast), old(diagnostics)),
            ),
            result matches Ok(id) ==> id < final(ast).stmts.len(),
            result is Ok ==> old(self)@.current < final(self)@.current,
        decreases old(self)@.tokens.len() - old(self)@.current, 16nat, 0nat,
    {
        let (initializer, test, increment) = self.for_clauses(ast, diagnostics)?;
        let body = self.statement(ast, diagnostics)?;
        self.for_loop(ast, diagnostics, initializer, test, increment, body)
    }

    /// The declarations of a block up to its closing brace, after the
    /// opening brace. `found` holds the statements read so far.
    pub(super) fn block(
        &mut self,
        ast: &mut Ast,
        diagnostics: &mut Diagnostics,
        found: Vec<usize>,
    ) -> (result: Result<Vec<usize>, ParseError>)
        requires
            old(self).wf(),
            old(ast).wf(),
            statements_of(found@, old(ast)),
        ensures
            kept(old(self), old(ast), final(self), final(ast)),
            (state(final(self)@, final(ast), final(diagnostics)), ok_seq(result)) == grammar::block(
                old(self)@.tokens,
                state(old(self)@, old(ast), old(diagnostics)),
                found@,
            ),
            result matches Ok(all) ==> statements_of(all@, final(ast)),
            result is Ok ==> old(self)@.current < final(self)@.current,
        decreases old(self)@.tokens.len() - old(self)@.current, 15nat, 0nat,
    {
        let mut found = found;
        if !self.check(TokenType::RightBrace) && !self.is_at_end() {
            let item = self.declaration(ast, diagnostics)?;
            found.push(item);
            self.block(ast, diagnostics, found)
        } else {
            self.consume(ast, diagnostics, TokenType::RightBrace, "Expect '}' after block.")?;
            Ok(found)
        }
    }

    /// statement → exprStmt | forStmt | ifStmt | printStmt | returnStmt
    ///           | whileStmt | block
    pub(super) fn statement(
        &mut self,
        ast: &mut Ast,
        diagnostics: &mut Diagnostics,
    ) -> (result: Result<usize, ParseError>)
        requires
            old(self).wf(),
            old(ast).wf(),
        ensures
            kept(old(self), old(ast), final(self), final(ast)),
            (state(final(self)@, final(ast), final(diagnostics)), ok(result)) == grammar::statement(
                old(self)@.tokens,
                state(old(self)@, old(ast), old(diagnostics)),
            ),
            result matches Ok(id) ==> id < final(ast).stmts.len(),
            result is Ok ==> old(self)@.current < final(self)@.current,
        decreases old(self)@.tokens.len() - old(self)@.current, 13nat, 0nat,
    {
        if self.check(TokenType::For) {
            self.advance();
            self.for_statement(ast, diagnostics)
        } else if self.check(TokenType::If) {
            self.advance();
            self.if_statement(ast, diagnostics)
        } else if self.check(TokenType::Print) {
            self.advance();
            self.print_statement(ast, diagnostics)
        } else if self.check(TokenType::Return) {
            let keyword = self.advance();
            self.return_statement(ast, diagnostics, keyword)
        } else if self.check(TokenType::While) {
            self.advance();
            self.while_statement(ast, diagnostics)
        } else if self.check(TokenType::LeftBrace) {
            self.advance();
            let body = self.block(ast, diagnostics, Vec::new())?;
            Ok(ast.push_stmt(Stmt::Block(body)))
        } else {
            self.expression_statement(ast, diagnostics)
        }
    }

    /// The parameters of a function, after the opening parenthesis. `found`
    /// holds the parameters read so far.
    pub(super) fn parameters(
        &mut self,
        ast: &mut Ast,
        diagnostics: &mut Diagnostics,
        found: Vec<Token>,
    ) -> (result: Result<Vec<Token>, ParseError>)
        requires
            old(self).wf(),
            old(ast).wf(),
        ensures
            kept(old(self), old(ast), final(self), final(ast)),
            (state(final(self)@, final(ast), final(diagnostics)), ok_seq(result))
                == grammar::parameters(
                old(self)@.tokens,
                state(old(self)@, old(ast), old(diagnostics)),
                found@,
            ),
            result is Ok ==> old(self)@.current < final(self)@.current,
        decreases old(self)@.tokens.len() - old(self)@.current, 0nat, 0nat,
    {
        let mut found = found;
        if found.len() >= 255 {
            let token = self.tokens[self.current].clone();
            self.error(diagnostics, &token, "Can't have more than 255 parameters.");
        }
        let name = self.consume(ast, diagnostics, TokenType::Identifier, "Expect parameter name.")?;
        found.push(name);
        if self.check(TokenType::Comma) {
            self.advance();
            self.parameters(ast, diagnostics, found)
        } else {
            Ok(found)
        }
    }

    /// The name and the parameter list of a function or method (`kind` says
    /// which), up to the opening brace of its body.
    pub(super) fn function_head(
        &mut self,
        ast: &mut Ast,
        diagnostics: &mut Diagnostics,
        kind: &str,
    ) -> (result: Result<(Token, Vec<Token>), ParseError>)
        requires
            old(self).wf(),
            old(ast).wf(),
        ensures
            kept(old(self), old(ast), final(self), final(ast)),
            (state(final(self)@, final(ast), final(diagnostics)), ok_head(result))
                == grammar::function_head(
                old(self)@.tokens,
                state(old(self)@, old(ast), old(diagnostics)),
                kind@,
            ),
            result is Ok ==> old(self)@.current < final(self)@.current,
        decreases old(self)@.tokens.len() - old(self)@.current, 0nat, 0nat,
    {
        let name = self.consume(
            ast,
            diagnostics,
            TokenType::Identifier,
            join3("Expect ", kind, " name.").as_str(),
        )?;
        self.consume(
            ast,
            diagnostics,
            TokenType::LeftParen,
            join3("Expect '(' after ", kind, " name.").as_str(),
        )?;
        let params = if self.check(TokenType::RightParen) {
            Vec::new()
        } else {
            self.parameters(ast, diagnostics, Vec::new())?
        };
        self.consume(ast, diagnostics, TokenType::RightParen, "Expect ')' after parameters.")?;
        self.consume(
            ast,
            diagnostics,
            TokenType::LeftBrace,
            join3("Expect '{' before ", kind, " body.").as_str(),
        )?;
        Ok((name, params))
    }

    /// function → IDENTIFIER "(" parameters? ")" block
    pub(super) fn function(
        &mut self,
        ast: &mut Ast,
        diagnostics: &mut Diagnostics,
        kind: &str,
    ) -> (result: Result<usize, ParseError>)
        requires
            old(self).wf(),
            old(ast).wf(),
        ensures
            kept(old(self), old(ast), final(self), final(ast)),
            (state(final(self)@, final(ast), final(diagnostics)), ok(result)) == grammar::function(
                old(self)@.tokens,
                state(old(self)@, old(ast), old(diagnostics)),
                kind@,
            ),
            result matches Ok(id) ==> id < final(ast).stmts.len() && final(ast).stmts[id as int] is Function,
            result is Ok ==> old(self)@.current < final(self)@.current,
        decreases old(self)@.tokens.len() - old(self)@.current, 16nat, 0nat,
    {
        let (name, params) = self.function_head(ast, diagnostics, kind)?;
        let body = self.block(ast, diagnostics, Vec::new())?;
        Ok(ast.push_stmt(Stmt::Function { name, params, body }))
    }

    /// The methods of a class up to the closing brace of its body. `found`
    /// holds the methods read so far.
    pub(super) fn methods(
        &mut self,
        ast: &mut Ast,
        diagnostics: &mut Diagnostics,
        found: Vec<usize>,
    ) -> (result: Result<Vec<usize>, ParseError>)
        requires
            old(self).wf(),
            old(ast).wf(),
            names_functions(found@, old(ast).stmts.len() as int, old(ast).stmts@),
        ensures
            kept(old(self), old(ast), final(self), final(ast)),
            (state(final(self)@, final(ast), final(diagnostics)), ok_seq(result))
                == grammar::methods(
                old(self)@.tokens,
                state(old(self)@, old(ast), old(diagnostics)),
                found@,
            ),
            result matches Ok(all) ==> names_functions(all@, final(ast).stmts.len() as int, final(ast).stmts@),
            result is Ok ==> old(self)@.current < final(self)@.current,
        decreases old(self)@.tokens.len() - old(self)@.current, 17nat, 0nat,
    {
        let mut found = found;
        if !self.check(TokenType::RightBrace) && !self.is_at_end() {
            let method = self.function(ast, diagnostics, "method")?;
            found.push(method);
            self.methods(ast, diagnostics, found)
        } else {
            self.consume(ast, diagnostics, TokenType::RightBrace, "Expect '}' after class body.")?;
            Ok(found)
        }
    }

    /// The superclass of a class, if one is written.
    pub(super) fn superclass(
        &mut self,
        ast: &mut Ast,
        diagnostics: &mut Diagnostics,
    ) -> (result: Result<Option<usize>, ParseError>)
        requires
            old(self).wf(),
            old(ast).wf(),
        ensures
            kept(old(self), old(ast), final(self), final(ast)),
            (state(final(self)@, final(ast), final(diagnostics)), ok(result))
                == grammar::superclass(
                old(self)@.tokens,
                state(old(self)@, old(ast), old(diagnostics)),
            ),
            result matches Ok(Some(id)) ==> id < final(ast).exprs.len(),
        decreases old(self)@.tokens.len() - old(self)@.current, 0nat, 0nat,
    {
        if self.check(TokenType::Less) {
            self.advance();
            let name = self.consume(
                ast,
                diagnostics,
                TokenType::Identifier,
                "Expect superclass name.",
            )?;
            Ok(Some(ast.push_expr(Expr::Variable(name))))
        } else {
            proof {
                ast.lemma_extends_itself();
            }
            Ok(None)
        }
    }

    /// classDecl → "class" IDENTIFIER ( "<" IDENTIFIER )? "{" function* "}",
    /// after the keyword.
    pub(super) fn class_declaration(
        &mut self,
        ast: &mut Ast,
        diagnostics: &mut Diagnostics,
    ) -> (result: Result<usize, ParseError>)
        requires
            old(self).wf(),
            old(ast).wf(),
        ensures
            kept(old(self), old(ast), final(self), final(ast)),
            (state(final(self)@, final(ast), final(diagnostics)), ok(result))
                == grammar::class_declaration(
                old(self)@.tokens,
                state(old(self)@, old(ast), old(diagnostics)),
            ),
            result matches Ok(id) ==> id < final(ast).stmts.len(),
            result is Ok ==> old(self)@.current < final(self)@.current,
        decreases old(self)@.tokens.len() - old(self)@.current, 18nat, 0nat,
    {
        let name = self.consume(ast, diagnostics, TokenType::Identifier, "Expect class name.")?;
        let superclass = self.superclass(ast, diagnostics)?;
        self.consume(ast, diagnostics, TokenType::LeftBrace, "Expect '{' before class body.")?;
        let methods = self.methods(ast, diagnostics, Vec::new())?;
        Ok(ast.push_stmt(Stmt::Class { name, superclass, methods }))
    }

    /// declaration → classDecl | funDecl | varDecl | statement
    pub(super) fn declaration(
        &mut self,
        ast: &mut Ast,
        diagnostics: &mut Diagnostics,
    ) -> (result: Result<usize, ParseError>)
        requires
            old(self).wf(),
            old(ast).wf(),
        ensures
            kept(old(self), old(ast), final(self), final(ast)),
            (state(final(self)@, final(ast), final(diagnostics)), ok(result))
                == grammar::declaration(
                old(self)@.tokens,
                state(old(self)@, old(ast), old(diagnostics)),
            ),
            result matches Ok(id) ==> id < final(ast).stmts.len(),
            result is Ok ==> old(self)@.current < final(self)@.current,
        decreases old(self)@.tokens.len() - old(self)@.current, 14nat, 0nat,
    {
        if self.check(TokenType::Class) {
            self.advance();
            self.class_declaration(ast, diagnostics)
        } else if self.check(TokenType::Fun) {
            self.advance();
            self.function(ast, diagnostics, "function")
        } else if self.check(TokenType::Var) {
            self.advance();
            self.var_declaration(ast, diagnostics)
        } else {
            self.statement(ast, diagnostics)
        }
    }
}

} // verus!
