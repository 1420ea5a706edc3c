//! A front end and tree-walking evaluator for a small dynamically typed
//! expression language with first-class functions and closures.
//!
//! Source text is split into tokens (`lexer`), parsed by operator precedence
//! into a syntax tree (`parser`, `ast`) and evaluated against a chain of
//! scopes (`eval`, `env`). Each stage is proved against a mathematical
//! statement of what it does: `lexer::lex`, `grammar::parse_program` and
//! `semantics::eval_program`.

pub mod ast;
pub mod env;
pub mod eval;
pub mod grammar;
pub mod laws;
pub mod lexer;
pub mod number;
pub mod object;
pub mod parse_error;
pub mod parser;
pub mod repl;
pub mod semantics;
pub mod text;
pub mod token;
