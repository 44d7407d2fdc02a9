//! A token: one lexeme of the source with its kind, value and line.

use vstd::prelude::*;
use crate::lexical::token_type::{kind_name, literal_text, literal_view, LiteralValue, LiteralView, TokenType};
use crate::text::{decimal, pad_left, pad_right, push_decimal, push_padded_left, push_padded_right, push_str};

verus! {

/// One token of the source.
#[derive(Debug, PartialEq)]
pub struct Token {
    pub token_type: TokenType,
    /// The exact source text of the token (empty for the end-of-file marker).
    pub lexeme: String,
    /// The value of a literal token.
    pub literal: Option<LiteralValue>,
    /// The line on which the token was recognised, counting from 1.
    pub line: usize,
}

/// The mathematical content of a [`Token`].
pub struct TokenView {
    pub token_type: TokenType,
    pub lexeme: Seq<char>,
    pub literal: Option<LiteralView>,
    pub line: usize,
}

impl View for Token {
    type V = TokenView;

    open spec fn view(&self) -> TokenView {
        TokenView {
            token_type: self.token_type,
            lexeme: self.lexeme@,
            literal: literal_view(self.literal),
            line: self.line,
        }
    }
}

/// A token as debugging output shows it: `Token { line: ` and the line
/// right-aligned in three places, `, type: ` and the kind's name left-aligned
/// in fourteen, `, lexeme: "`, the text and `"`; then `, literal: ` and the
/// value for a literal token; then ` }`.
pub open spec fn token_text(t: TokenView) -> Seq<char> {
    "Token { line: "@ + pad_left(decimal(t.line as nat), 3) + ", type: "@ + pad_right(kind_name(t.token_type), 14)
        + ", lexeme: \""@ + t.lexeme + seq!['"'] + (match t.literal {
        Some(l) => ", literal: "@ + literal_text(l),
        None => Seq::empty(),
    }) + " }"@
}

impl Token {
    /// A token of kind `token_type` with the text `lexeme`, the value `literal`, on `line`.
    pub fn new(token_type: TokenType, literal: Option<LiteralValue>, lexeme: &str, line: usize) -> (r: Self)
        ensures
            r.token_type == token_type,
            r.literal == literal,
            r.lexeme@ == lexeme@,
            r.line == line,
    {
        Token { token_type, lexeme: lexeme.to_owned(), literal, line }
    }
}

impl Token {
    /// The token as debugging output shows it (see [`token_text`]).
    pub fn debug_text(&self) -> (r: String)
        ensures
            r@ == token_text(self@),
    {
        let mut out = String::new();
        push_str(&mut out, "Token { line: ");
        let mut number = String::new();
        push_decimal(&mut number, self.line as u64);
        push_padded_left(&mut out, number.as_str(), 3);
        push_str(&mut out, ", type: ");
        push_padded_right(&mut out, self.token_type.name(), 14);
        push_str(&mut out, ", lexeme: \"");
        push_str(&mut out, self.lexeme.as_str());
        out.push('"');
        match &self.literal {
            Some(l) => {
                push_str(&mut out, ", literal: ");
                l.push_debug_text(&mut out);
            },
            None => {},
        }
        push_str(&mut out, " }");
        assert(out@ =~= token_text(self@));
        out
    }
}

impl Clone for Token {
    /// A copy equal to this value.
    fn clone(&self) -> (r: Self)
        ensures
            r == *self,
    {
        let literal = match &self.literal {
            Some(l) => Some(l.clone()),
            None => None,
        };
        Token { token_type: self.token_type, lexeme: self.lexeme.clone(), literal, line: self.line }
    }
}

} // verus!
