//! The tokens that the parser reads.
//!
//! A tokenizer hands the parser a sequence of lines. Each line carries its
//! indentation level and its tokens, in source order.

use vstd::prelude::*;
use vstd::string::*;
use crate::text::{decimal, to_decimal};

verus! {

/// How the tokenizer classified a token.
#[derive(Clone, Copy, Debug, PartialEq, Eq, Structural)]
pub enum TokenType {
    /// Plain text: a name, a keyword, a path, a piece of a command.
    Literal,
    /// The `:` between a target and its dependencies.
    Colon,
    /// The `=` of an assignment.
    Equal,
    /// Anything else the tokenizer tells apart.
    Other,
}

/// One lexeme, with its classification and where it stood in the source.
#[derive(Clone, Copy, Debug, PartialEq, Eq)]
pub struct Token<'a> {
    pub typ: TokenType,
    pub text: &'a str,
    pub row: usize,
    pub col: usize,
}

/// A token as a mathematical value.
pub struct TokenView {
    pub typ: TokenType,
    pub text: Seq<char>,
    pub row: nat,
    pub col: nat,
}

impl<'a> View for Token<'a> {
    type V = TokenView;

    open spec fn view(&self) -> TokenView {
        TokenView { typ: self.typ, text: self.text@, row: self.row as nat, col: self.col as nat }
    }
}

/// The tokens of one source line.
pub type Tokens<'a> = Vec<Token<'a>>;

/// The whole input: each line's indentation level and its tokens.
pub type LinizedTokens<'a> = Vec<(usize, Tokens<'a>)>;

/// A source line as a mathematical value.
pub struct LineView {
    pub level: nat,
    pub tokens: Seq<TokenView>,
}

/// The tokens of a line, each by its view.
pub open spec fn tokens_view(tokens: Seq<Token>) -> Seq<TokenView> {
    tokens.map_values(|t: Token| t@)
}

/// The lines of an input, each by its view.
pub open spec fn lines_view(lines: Seq<(usize, Tokens)>) -> Seq<LineView> {
    lines.map_values(|l: (usize, Tokens)| LineView { level: l.0 as nat, tokens: tokens_view(l.1@) })
}

/// Where a token stood: its row and its column, as `row:col`.
pub open spec fn location(token: TokenView) -> Seq<char> {
    decimal(token.row) + ":"@ + decimal(token.col)
}

impl<'a> Token<'a> {
    /// A token with the given classification, text and position.
    pub fn new(typ: TokenType, text: &'a str, row: usize, col: usize) -> (token: Self)
        ensures
            token == (Token { typ, text, row, col }),
    {
        Token { typ, text, row, col }
    }

    /// Where the token stood in the source, as `row:col`.
    pub fn location(&self) -> (s: String)
        ensures
            s@ == location(self@),
    {
        let mut s = to_decimal(self.row);
        s.append(":");
        let col = to_decimal(self.col);
        s.append(col.as_str());
        s
    }
}

} // verus!
