//! A front end and evaluator for simpIL, a minimal imperative language over
//! 32-bit unsigned integers: a scanner, a precedence-climbing parser and a
//! tree-walking interpreter driven by a program counter.
//!
//! Each stage is stated twice: as mathematical functions ([`scanner::scan`],
//! [`grammar::parse`], [`semantics::run`]) and as executable code that is
//! proved to compute them.

/// Bytes, ASCII text and decimal numerals.
pub mod text;
/// The tokens of simpIL.
pub mod tokens;
/// From source text to tokens.
pub mod scanner;
/// Expressions and statements.
pub mod syntax;
/// The grammar, as functions on token sequences.
pub mod grammar;
/// From tokens to statements.
pub mod parser;
/// The table of variables.
pub mod bindings;
/// The meaning of programs, as functions on states.
pub mod semantics;
/// The execution of programs.
pub mod interpreter;
/// Walking syntax trees.
pub mod visitor;
/// What holds of the three stages.
pub mod laws;
