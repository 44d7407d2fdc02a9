//! Front end of a small scripting language: a character scanner that turns
//! source text into tokens, and a recursive-descent parser that turns tokens
//! into a syntax tree, both with machine-checked contracts.

pub mod text;
pub mod throw;
pub mod lexical;
pub mod abstract_syntax_tree;
pub mod parser;
pub mod parse;
pub mod analysis;
