//! A parser for the Graphviz DOT graph-description language.
//!
//! The library turns a complete source text into a typed abstract syntax
//! tree, or reports a parse failure.  Lexing and parsing are specified by
//! mathematical model functions (see [`scan`] and [`grammar`]); the
//! executable tokenizer and recursive-descent parser are verified to return
//! exactly what those models describe.

pub mod ast;
pub mod grammar;
pub mod lexer;
pub mod nodes;
pub mod parser;
pub mod scan;
pub mod scan_laws;
pub mod token;
