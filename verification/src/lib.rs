//! A small scripting-language front end and evaluator: a token-fed
//! recursive-descent expression/statement parser that builds an abstract
//! syntax tree, and a tree-walking interpreter that executes that tree
//! against a mutable name environment.
//!
//! Lexing source text into tokens, command-line handling and all I/O live
//! outside this crate; the library works on plain token sequences and
//! returns the run's outcome together with a trace of the effects (prints,
//! external commands) that the host is expected to perform.

pub mod args;
pub mod ast;
pub mod env;
pub mod errors;
pub mod grammar;
pub mod interpreter;
pub mod laws;
pub mod parser;
pub mod semantics;
pub mod stdlib;
pub mod token;
