//! A verified arithmetic-expression front end.
//!
//! The pipeline turns an input string into a stack program in three stages:
//! lexical analysis ([`lexer`]), parsing into an expression tree ([`parser`]),
//! and name resolution plus code generation ([`compile`]). Each stage is an
//! executable function whose result is pinned, case by case, to a spec-level
//! function of the input, so the whole pipeline is a proved function of the
//! input text. Running the resulting program over IEEE-754 doubles is left to
//! the (unverified) embedder, since floating-point arithmetic cannot be
//! reasoned about here; the [`laws`] module proves that a compiled program
//! denotes exactly the resolved expression tree under any such interpreter.

pub mod ast;
pub mod compile;
pub mod laws;
pub mod lexer;
pub mod parser;
pub mod pipeline;
