//! From token lines to the syntax tree.

pub mod lexer;
pub mod ast;
pub mod grammar;
pub mod parser;
