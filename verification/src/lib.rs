//! A tree-walking interpreter for a small, dynamically typed, C-like
//! scripting language.
//!
//! The pipeline is lexer -> parser -> evaluator over a shared abstract
//! syntax tree.  Every stage is specified against a mathematical model:
//! tokens, AST nodes, runtime values and environments each have a view
//! type built from `Seq` and plain values, and the executable code is
//! verified to match spec-level interpreters over those views.

pub mod ast;
pub mod builtins;
pub mod converter;
pub mod environment;
pub mod error;
pub mod evaluator;
pub mod lexer;
pub mod modify;
pub mod object;
pub mod parser;
pub mod repl;
pub mod strutil;
pub mod token;
