//! Parsers of the operators that stand after an expression.

pub mod binary;
pub mod call;
