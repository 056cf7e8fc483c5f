//! Core of a tree-walking interpreter for a small dynamically typed
//! scripting language: a lexer that turns source text into tokens, a
//! recursive-descent parser that builds an abstract syntax tree, and an
//! evaluator that walks statements against a lexically scoped chain of
//! environment frames.
//!
//! Every stage carries a mathematical model: tokens, expressions and
//! statements have spec-level views, and each executable stage is proved
//! to agree with a spec-level description of the same computation.

pub mod expr;
pub mod func;
pub mod interpreter;
pub mod laws;
pub mod lexer;
pub mod parser;
pub mod stmt;
