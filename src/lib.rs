//! A small stack-based language: a precedence-climbing parser from tokens
//! to statements, and an interpreter whose function calls take their
//! arguments from the caller's operand stack and return through it.
use vstd::prelude::*;

pub mod ast;
pub mod display;
pub mod env;
pub mod interpreter;
pub mod laws;
pub mod literal;
pub mod number;
pub mod parser;
pub mod token;
pub mod value;

verus! {

} // verus!
