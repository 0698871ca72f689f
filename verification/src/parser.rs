//! The parser: the grammar of `crate::grammar`, in executable form. It
//! reads the tokens of a program and adds the nodes of its syntax tree to
//! an `Ast`.

use vstd::prelude::*;

mod expressions;
mod statements;

use crate::ast::Ast;
use crate::grammar;
use crate::grammar::{tokens_wf, Parse};
use crate::lox::{parse_error, Diagnostics};
use crate::token::Token;
use crate::token_type::TokenType;

verus! {

/// A syntax error. It has been reported where it was found.
#[derive(Debug)]
pub struct ParseError;

/// The parser: the tokens and the place of the next one to read.
pub struct Parser {
    tokens: Vec<Token>,
    current: usize,
}

/// What a parser holds.
pub ghost struct ParserView {
    pub tokens: Seq<Token>,
    pub current: usize,
}

impl View for Parser {
    type V = ParserView;

    closed spec fn view(&self) -> ParserView {
        ParserView { tokens: self.tokens@, current: self.current }
    }
}

/// How far parsing has come, from its three parts.
pub open spec fn state(parser: ParserView, ast: &Ast, diagnostics: &Diagnostics) -> Parse {
    Parse {
        exprs: ast.expr_views(),
        stmts: ast.stmt_views(),
        current: parser.current as nat,
        diagnostics: diagnostics@,
    }
}

/// What was parsed, if parsing succeeded.
pub open spec fn ok<T>(result: Result<T, ParseError>) -> Option<T> {
    match result {
        Ok(value) => Some(value),
        Err(_) => None,
    }
}

/// The items that were parsed, if parsing succeeded.
pub open spec fn ok_seq<T>(result: Result<Vec<T>, ParseError>) -> Option<Seq<T>> {
    match result {
        Ok(items) => Some(items@),
        Err(_) => None,
    }
}

/// The head of a function that was parsed, if parsing succeeded.
pub open spec fn ok_head(
    result: Result<(Token, Vec<Token>), ParseError>,
) -> Option<(Token, Seq<Token>)> {
    match result {
        Ok((name, params)) => Some((name, params@)),
        Err(_) => None,
    }
}

/// What every step of parsing keeps: the tokens are the same, reading has
/// not gone backwards, and the tree is well formed and has only grown.
pub open spec fn kept(before: &Parser, earlier: &Ast, after: &Parser, later: &Ast) -> bool {
    &&& after.wf()
    &&& after@.tokens == before@.tokens
    &&& before@.current <= after@.current
    &&& later.wf()
    &&& later.extends(earlier)
}

/// Every index of `ids` names a statement of `ast`.
pub open spec fn statements_of(ids: Seq<usize>, ast: &Ast) -> bool {
    forall|i: int| 0 <= i < ids.len() ==> #[trigger] ids[i] < ast.stmts.len()
}

impl Parser {
    /// The parser stands at a token, and the last token ends the text.
    pub open spec fn wf(&self) -> bool {
        tokens_wf(self@.tokens) && self@.current < self@.tokens.len()
    }

    /// A parser at the first of `tokens`. Where the tokens do not end with
    /// an end-of-text token, one is added, on the line of the last token.
    pub fn new(tokens: Vec<Token>) -> (parser: Self)
        ensures
            parser.wf(),
            parser@.current == 0,
            grammar::terminated(tokens@, parser@.tokens),
    {
        let mut tokens = tokens;
        let count = tokens.len();
        let ended = count > 0 && tokens[count - 1].token_type == TokenType::Eof;
        if !ended {
            let line = if count > 0 {
                tokens[count - 1].line
            } else {
                1
            };
            let ghost given = tokens@;
            tokens.push(Token::new(TokenType::Eof, String::new(), None, line));
            assert(tokens@.drop_last() =~= given);
        }
        Parser { tokens, current: 0 }
    }

    fn is_at_end(&self) -> (ended: bool)
        requires
            self.wf(),
        ensures
            ended == (self@.tokens[self@.current as int].token_type == TokenType::Eof),
    {
        self.tokens[self.current].token_type == TokenType::Eof
    }

    fn peek(&self) -> (token: &Token)
        requires
            self.wf(),
        ensures
            *token == self@.tokens[self@.current as int],
    {
        &self.tokens[self.current]
    }

    fn check(&self, token_type: TokenType) -> (found: bool)
        requires
            self.wf(),
        ensures
            found == (self@.tokens[self@.current as int].token_type != TokenType::Eof
                && self@.tokens[self@.current as int].token_type == token_type),
    {
        let kind = self.tokens[self.current].token_type;
        kind != TokenType::Eof && kind == token_type
    }

    /// Goes past the current token, unless it ends the text, and returns
    /// the token that was current.
    fn advance(&mut self) -> (token: Token)
        requires
            old(self).wf(),
        ensures
            final(self).wf(),
            final(self)@.tokens == old(self)@.tokens,
            token == old(self)@.tokens[old(self)@.current as int],
            final(self)@.current as int == if old(self)@.tokens[old(self)@.current as int].token_type
                == TokenType::Eof {
                old(self)@.current as int
            } else {
                old(self)@.current + 1
            },
    {
        let token = self.tokens[self.current].clone();
        if token.token_type != TokenType::Eof {
            assert(self.current < self.tokens.len());
            self.current = self.current + 1;
        }
        token
    }

    /// Reports `message` at `token`.
    fn error(
        &self,
        diagnostics: &mut Diagnostics,
        token: &Token,
        message: &str,
    ) -> (error: ParseError)
        ensures
            final(diagnostics)@ == crate::lox::reported(
                old(diagnostics)@,
                crate::lox::report_line(token.line as nat, crate::lox::place_of(*token), message@),
            ),
    {
        parse_error(diagnostics, token, message);
        ParseError
    }

    /// Reads a token of kind `token_type`, or reports `message` at the
    /// current token.
    fn consume(
        &mut self,
        ast: &Ast,
        diagnostics: &mut Diagnostics,
        token_type: TokenType,
        message: &str,
    ) -> (token: Result<Token, ParseError>)
        requires
            old(self).wf(),
            ast.wf(),
        ensures
            kept(old(self), ast, final(self), ast),
            (state(final(self)@, ast, final(diagnostics)), ok(token)) == grammar::consume(
                old(self)@.tokens,
                state(old(self)@, ast, old(diagnostics)),
                token_type,
                message@,
            ),
            token is Ok ==> old(self)@.current < final(self)@.current,
    {
        proof {
            ast.lemma_extends_itself();
        }
        if self.check(token_type) {
            Ok(self.advance())
        } else {
            let token = self.tokens[self.current].clone();
            Err(self.error(diagnostics, &token, message))
        }
    }
}

/// Whether a statement may start with a token of kind `kind`.
fn starts_statement(kind: TokenType) -> (result: bool)
    ensures
        result == grammar::starts_statement(kind),
{
    kind == TokenType::Class || kind == TokenType::Fun || kind == TokenType::Var || kind
        == TokenType::For || kind == TokenType::If || kind == TokenType::While || kind
        == TokenType::Print || kind == TokenType::Return
}

impl Parser {
    /// After an error: leaves the token at which it was found behind and
    /// skips to where a statement may start.
    fn synchronize(&mut self)
        requires
            old(self).wf(),
        ensures
            final(self).wf(),
            final(self)@.tokens == old(self)@.tokens,
            old(self)@.current <= final(self)@.current,
            old(self)@.tokens[old(self)@.current as int].token_type != TokenType::Eof ==> old(
                self,
            )@.current < final(self)@.current,
            final(self)@.current == grammar::skip(
                old(self)@.tokens,
                if old(self)@.tokens[old(self)@.current as int].token_type == TokenType::Eof {
                    old(self)@.current as nat
                } else {
                    (old(self)@.current + 1) as nat
                },
            ),
    {
        self.advance();
        let ghost start = self@.current;
        while !self.is_at_end() && !(self.current > 0 && self.tokens[self.current - 1].token_type
            == TokenType::SemiColon) && !starts_statement(self.tokens[self.current].token_type)
            invariant
                self.wf(),
                self@.tokens == old(self)@.tokens,
                start <= self@.current,
                grammar::skip(self@.tokens, start as nat) == grammar::skip(
                    self@.tokens,
                    self@.current as nat,
                ),
            decreases self@.tokens.len() - self@.current,
        {
            self.advance();
        }
    }

    /// Parses a declaration at the top level of a program.
    fn top_declaration(
        &mut self,
        ast: &mut Ast,
        diagnostics: &mut Diagnostics,
    ) -> (result: Result<usize, ParseError>)
        requires
            old(self).wf(),
            old(ast).wf(),
        ensures
            kept(old(self), old(ast), final(self), final(ast)),
            (state(final(self)@, final(ast), final(diagnostics)), ok(result))
                == grammar::top_declaration(
                old(self)@.tokens,
                state(old(self)@, old(ast), old(diagnostics)),
            ),
            result matches Ok(id) ==> id < final(ast).stmts.len(),
            result is Ok ==> old(self)@.current < final(self)@.current,
    {
        reveal(grammar::top_declaration);
        self.declaration(ast, diagnostics)
    }

    /// Parses the tokens from the current one to the end of the text and
    /// adds the nodes of the syntax tree to `ast`. Returns the statements
    /// of the program, in order. A statement with a syntax error is
    /// reported to `diagnostics` and left out.
    pub fn parse(
        &mut self,
        ast: &mut Ast,
        diagnostics: &mut Diagnostics,
    ) -> (statements: Vec<usize>)
        requires
            old(self).wf(),
            old(ast).wf(),
        ensures
            kept(old(self), old(ast), final(self), final(ast)),
            (state(final(self)@, final(ast), final(diagnostics)), statements@) == grammar::program(
                old(self)@.tokens,
                state(old(self)@, old(ast), old(diagnostics)),
                Seq::empty(),
            ),
            statements_of(statements@, final(ast)),
    {
        let mut statements: Vec<usize> = Vec::new();
        proof {
            ast.lemma_extends_itself();
        }
        while !self.is_at_end()
            invariant
                kept(old(self), old(ast), self, ast),
                statements_of(statements@, ast),
                grammar::program(
                    old(self)@.tokens,
                    state(old(self)@, old(ast), old(diagnostics)),
                    Seq::empty(),
                ) == grammar::program(
                    old(self)@.tokens,
                    state(self@, ast, diagnostics),
                    statements@,
                ),
            decreases self@.tokens.len() - self@.current,
        {
            match self.top_declaration(ast, diagnostics) {
                Ok(statement) => {
                    statements.push(statement);
                },
                Err(_) => {
                    self.synchronize();
                },
            }
        }
        statements
    }
}

} // verus!
