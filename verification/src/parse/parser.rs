//! A token list with a cursor, the state a parser starts from.

use vstd::prelude::*;
use crate::lexical::token::Token;

verus! {

/// A token list and the index of the next token to look at.
pub struct Parser {
    tokens: Vec<Token>,
    current: u32,
}

impl Parser {
    /// The tokens held.
    pub closed spec fn token_list(&self) -> Seq<Token> {
        self.tokens@
    }

    /// The index of the next token.
    pub closed spec fn position(&self) -> int {
        self.current as int
    }

    /// A state over `tokens`, at the first of them.
    pub fn new(tokens: Vec<Token>) -> (r: Self)
        ensures
            r.token_list() == tokens@,
            r.position() == 0,
    {
        let base = Parser::default();
        Parser { tokens, current: base.current }
    }
}

impl Default for Parser {
    /// No tokens, at position zero.
    fn default() -> (r: Self)
        ensures
            r.token_list() == Seq::<Token>::empty(),
            r.position() == 0,
    {
        Parser { tokens: Vec::new(), current: 0 }
    }
}

} // verus!
