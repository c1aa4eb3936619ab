//! An interpreter for an expression-only subset of the Lox language:
//! a scanner turns source text into tokens, a recursive-descent parser
//! builds an expression tree, and an evaluator reduces the tree to a
//! single runtime value.  Every stage is specified by a spec-level
//! model of its input and output and verified against it.

pub mod token;
mod text;
pub mod ast;
pub mod scanner;
pub mod parser;
pub mod interpreter;
