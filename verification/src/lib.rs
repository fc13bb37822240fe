//! Lexer and parser for the ezscn language.
pub mod tokens;
pub mod chars;
pub mod lexer;
pub mod error;
pub mod string;
pub mod ast;
pub mod parser;
