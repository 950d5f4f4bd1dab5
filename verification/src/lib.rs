//! Front end of a small statically typed language: a tokenizer over bytes and
//! a statement parser that builds a syntax tree and collects its errors.

pub mod lexer;
pub mod parser;
