//! A transpiler from a small imperative language (global variables, functions,
//! `if`, `while`, calls) to the flat label-and-jump logic assembly of a register
//! machine without a call stack.
//!
//! The stages are `tokenizer::tokenize` (text to tokens), `parser::parse_program`
//! (tokens to a syntax tree) and `ProgramAST::generate` (syntax tree to target
//! text). Each is stated as a pure function over ghost views, and the executable
//! code is proved to compute exactly that function; `laws` proves properties of
//! the stages together.

pub mod ast;
pub mod generator;
pub mod laws;
pub mod mlog;
pub mod parser;
pub mod text;
pub mod tokenizer;
