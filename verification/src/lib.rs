//! A small imperative language: lexer, recursive-descent parser, static type
//! checker and tree-walking interpreter, each with a machine-checked contract.

pub mod ast;
pub mod error;
pub mod interpreter;
pub mod lexer;
pub mod names;
pub mod parser;
pub mod token_text;
pub mod type_checker;
