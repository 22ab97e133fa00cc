//! The syntax tree produced by the parser: expressions, statements and programs.

pub mod expr;
pub mod node_ids;
pub mod program;
pub mod statement;
