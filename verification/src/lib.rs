//! A verified interpreter for the Monkey scripting language.
//!
//! Source text runs through three stages: the lexer turns characters into
//! tokens, the Pratt parser turns tokens into an abstract syntax tree, and
//! the tree-walking evaluator turns the tree into runtime values against a
//! chain of lexically scoped environments.  Each stage is an executable
//! function whose result is proved equal to a mathematical model of that
//! stage, so lexing, parsing and evaluation are deterministic by contract.

pub mod ast;
pub mod builtins;
pub mod driver;
pub mod environment;
pub mod evaluator;
pub mod laws;
pub mod lexer;
pub mod object;
pub mod parser;
pub mod token;
