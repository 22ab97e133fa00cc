//! A whole parsed program: the root of the syntax tree.

use vstd::prelude::*;
use crate::ast::statement::{stmts_view, SpecStatement, Statement};

verus! {

/// Represents a fully parsed toy language program.
///
/// A `Program` consists of a list of top-level structural statements (like functions
/// and variable declarations) that represent the root of the parsed AST.
#[derive(Debug, PartialEq)]
pub struct Program {
    pub statements: Vec<Statement>,
}

impl View for Program {
    type V = Seq<SpecStatement>;

    open spec fn view(&self) -> Seq<SpecStatement> {
        stmts_view(self.statements@)
    }
}

impl Program {
    /// Creates a program from its top-level statements.
    pub fn new(statements: Vec<Statement>) -> (r: Self)
        ensures
            r.statements == statements,
    {
        Program { statements }
    }

    /// Returns a read-only slice of all top-level statements in this program.
    pub fn statements(&self) -> (r: &[Statement])
        ensures
            r@ == self.statements@,
    {
        self.statements.as_slice()
    }
}

/// Collects top-level statements, in order, into a [`Program`].
pub struct ProgramBuilder {
    pub statements: Vec<Statement>,
}

impl ProgramBuilder {
    /// A builder with no statements yet.
    pub fn new() -> (r: Self)
        ensures
            r.statements@ == Seq::<Statement>::empty(),
    {
        ProgramBuilder { statements: Vec::new() }
    }

    /// Appends a statement after the ones already added.
    pub fn add(self, statement: Statement) -> (r: ProgramBuilder)
        ensures
            r.statements@ == self.statements@.push(statement),
    {
        let mut builder = self;
        builder.statements.push(statement);
        builder
    }

    /// The program of the statements added, in the order they were added.
    pub fn build(self) -> (r: Program)
        ensures
            r.statements@ == self.statements@,
    {
        Program::new(self.statements)
    }
}

} // verus!
