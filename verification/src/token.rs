//! Tokens: the pieces of source text that the syntax tree carries along for
//! names and diagnostics.

use vstd::prelude::*;
use vstd::std_specs::cmp::PartialEqSpecImpl;

use crate::lox_type::{LoxType, Value};
use crate::token_type::TokenType;

verus! {

/// A token: its kind, its text, its value if it is a literal, and the line
/// it stands on.
#[derive(Debug)]
pub struct Token {
    pub token_type: TokenType,
    pub lexeme: String,
    pub literal: Option<LoxType>,
    pub line: usize,
}

/// What a token holds.
pub ghost struct TokenView {
    pub token_type: TokenType,
    pub lexeme: Seq<char>,
    pub literal: Option<Value>,
    pub line: usize,
}

impl View for Token {
    type V = TokenView;

    open spec fn view(&self) -> TokenView {
        TokenView {
            token_type: self.token_type,
            lexeme: self.lexeme@,
            literal: match self.literal {
                Some(value) => Some(value@),
                None => None,
            },
            line: self.line,
        }
    }
}

impl Token {
    /// The token with the given parts.
    pub fn new(
        token_type: TokenType,
        lexeme: String,
        literal: Option<LoxType>,
        line: usize,
    ) -> (token: Self)
        ensures
            token == (Token { token_type, lexeme, literal, line }),
    {
        Token { token_type, lexeme, literal, line }
    }

    /// What identifies a token: its text and the line it stands on.
    pub open spec fn key(&self) -> (Seq<char>, usize) {
        (self.lexeme@, self.line)
    }
}

impl Clone for Token {
    fn clone(&self) -> (copy: Self)
        ensures
            copy == *self,
    {
        let literal = match &self.literal {
            Some(value) => Some(value.clone()),
            None => None,
        };
        Token { token_type: self.token_type, lexeme: self.lexeme.clone(), literal, line: self.line }
    }
}

/// Two tokens are equal when they have the same text on the same line.
impl PartialEq for Token {
    fn eq(&self, other: &Self) -> (same: bool) {
        self.line == other.line && self.lexeme == other.lexeme
    }
}

impl PartialEqSpecImpl for Token {
    open spec fn obeys_eq_spec() -> bool {
        true
    }

    open spec fn eq_spec(&self, other: &Self) -> bool {
        self.key() == other.key()
    }
}

impl Eq for Token {

}

} // verus!
