//! The rule language: lexer, parser, type checker and evaluation runtime.
pub mod ast;
pub mod bridge;
pub mod error;
pub mod lexer;
pub mod parser;
pub mod reload;
pub mod runtime;
pub mod strings;
pub mod types;
pub mod utf8_len;
