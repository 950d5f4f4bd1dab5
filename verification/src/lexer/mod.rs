//! The tokenizer: byte classes and lexical rules, tokens, and the scanner.

pub mod lexer;
pub mod scan;
pub mod text;
pub mod token;

pub use lexer::Lexer;
pub use token::Token;
