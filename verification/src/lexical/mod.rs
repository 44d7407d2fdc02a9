//! Lexical analysis: token kinds, tokens, reserved words, and the scanner.

pub mod token_type;
pub use token_type::LiteralValue;
pub use token_type::TokenType;

pub mod token;
pub use token::Token;

pub mod keywords;
pub use keywords::Keywords;

pub mod lexing;
pub mod scanner;
