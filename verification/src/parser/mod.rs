//! Parsing: the grammar the parser follows, and the parser itself.

pub mod grammar;
pub mod parser;
pub mod laws;
