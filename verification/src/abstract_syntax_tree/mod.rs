//! The syntax tree and its mathematical model.

pub mod ast;
pub mod model;
pub mod duplicate;
