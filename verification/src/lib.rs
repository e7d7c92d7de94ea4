//! An interactive command interpreter for a small shell-like expression
//! language: lines of input are tokenized, rewritten into canonical form,
//! parsed under a declarative grammar, and evaluated against a dynamically
//! typed value model with lexical scoping and closures.

pub mod ast;
pub mod grammar;
pub mod lexer;
pub mod liner;
pub mod parser;
pub mod ruler;
pub mod runner;
pub mod stream;
pub mod text;
pub mod tokenization;
pub mod value;
