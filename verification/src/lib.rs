//! A small compiler front end for a toy, statically typed language.
use vstd::prelude::*;

pub mod ast;
pub mod infer;
pub mod lexer;
pub mod parser;
pub mod semantic;
pub mod text;

pub use crate::infer::{Infer, InferenceError};

verus! {
} // verus!
