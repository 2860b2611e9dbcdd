//! Quick maths: a small arithmetic and boolean expression language with a
//! lexer, a precedence-climbing parser and an evaluator over a variable store.

pub mod decimal;
pub mod error;
pub mod common;
pub mod text;
pub mod pattern;
pub mod lexer;
pub mod parser;
pub mod ast;
pub mod state;
pub mod interpreter;
pub mod roundtrip;
pub mod laws;
pub mod grammar;
