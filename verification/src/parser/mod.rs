//! The statement parser: the syntax tree, the errors, the grammar and the
//! parser that follows it.

pub mod ast;
pub mod grammar;
pub mod parser;
pub mod parser_errors;

pub use parser::Parser;
