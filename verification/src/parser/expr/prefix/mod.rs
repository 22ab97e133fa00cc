//! Parsers of the expressions a token begins.

pub mod boolean;
pub mod group;
pub mod identifier;
pub mod string;
pub mod unary;
pub mod whole_number;
