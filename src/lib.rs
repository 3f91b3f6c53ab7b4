//! Lexical front end of a small expression language: a scanner that turns
//! source text into tokens, and the expression tree with its visitor protocol.

pub mod token;
pub mod scanner;
pub mod expr;
