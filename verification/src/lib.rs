//! A small expression language: a lexer, a precedence-climbing parser and a
//! tree-walking evaluator over arbitrary-precision integers and 64-bit floats.
//!
//! Every stage carries exact source spans, and every function states what it
//! returns over a mathematical model of its arguments.
//!
//! Integers are computed here, with `num_bigint`. Floats are held as bit
//! patterns, and their arithmetic is left to the caller: see [`float`] for
//! the tasks that the caller carries out and [`replay`] for why the value of
//! a line is what the caller's arithmetic makes it.

pub mod ast;
pub mod basic;
pub mod error;
pub mod float;
pub mod integer;
pub mod interpreter;
pub mod lexer;
pub mod parser;
pub mod position;
pub mod replay;
pub mod symbol_table;
pub mod theory;
pub mod token;
