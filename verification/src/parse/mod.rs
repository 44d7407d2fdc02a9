//! A minimal parser state: the tokens and a cursor over them.

pub mod parser;
