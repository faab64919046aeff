//! A tree-walking runtime for the Krama language: lexing routines, static
//! scope analysis, the scope stack and heap, and the evaluator.

pub mod span;
pub mod error;
pub mod environment;

pub use span::Span;
pub mod maps;
pub mod ast;
pub mod object;
pub mod analysis;
pub mod memory;
pub mod interpreter;
pub mod lexer;
