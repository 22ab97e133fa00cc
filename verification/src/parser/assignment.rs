//! Assignments: `name = expression;`.

use vstd::prelude::*;
use crate::ast::node_ids::{expr_ids, issued_between, lemma_issued_then, stmt_ids};
use crate::ast::expr::{Expression, ExpressionKind};
use crate::ast::statement::{Assignment, Statement};
use crate::lexer::token::TokenType;
use crate::parser::error::ParseError;
use crate::parser::expr::precedence::Precedence;
use crate::parser::expr::ExpressionParser;
use crate::parser::grammar::{assignment, expression};
use crate::parser::stream::{advanced, outcome, ParserStream};

verus! {

/// A sub-parser for variable assignment statements.
pub struct AssignmentParser;

impl AssignmentParser {
    /// Parses an identifier, `=`, an expression and the closing `;`. The expression is
    /// placed on the line of the identifier.
    pub fn parse(stream: &mut ParserStream) -> (r: Result<Statement, ParseError>)
        requires
            old(stream).wf(),
        ensures
            old(stream).last_id() <= final(stream).last_id(),
            r is Ok ==> issued_between(stmt_ids(r->Ok_0), old(stream).last_id(), final(stream).last_id()),
            advanced(*old(stream), *final(stream), 0),
            outcome(
                r,
                assignment(old(stream).tokens(), old(stream).end(), old(stream).pos()),
                final(stream).pos(),
            ),
            r matches Ok(s) ==> s is Assignment && old(stream).pos() < final(stream).pos(),
    {
        let name = match stream.expect_identifier() {
            Ok(t) => t,
            Err(e) => return Err(e),
        };
        match stream.expect(TokenType::Equals) {
            Ok(_) => {},
            Err(e) => return Err(e),
        }
        let expression_kind = match Self::expression_kind(stream) {
            Ok(k) => k,
            Err(e) => return Err(e),
        };
        match stream.expect(TokenType::Semicolon) {
            Ok(_) => {},
            Err(e) => return Err(e),
        }
        let expression = Expression::new(expression_kind, name.line);
        let assignment = Assignment::new(name.owned_value(), expression);
        let ghost before = stream.last_id();
        let id = stream.next_id();
        proof {
            lemma_issued_then(expr_ids(assignment.expression.kind), old(stream).last_id(), before, id.0);
        }
        Ok(Statement::Assignment(assignment, id))
    }

    /// The assigned expression.
    fn expression_kind(stream: &mut ParserStream) -> (r: Result<ExpressionKind, ParseError>)
        requires
            old(stream).wf(),
        ensures
            old(stream).last_id() <= final(stream).last_id(),
            r is Ok ==> issued_between(expr_ids(r->Ok_0), old(stream).last_id(), final(stream).last_id()),
            advanced(*old(stream), *final(stream), 0),
            outcome(
                r,
                expression(old(stream).tokens(), old(stream).end(), old(stream).pos(), Precedence::Lowest),
                final(stream).pos(),
            ),
    {
        ExpressionParser::parse(stream)
    }
}

} // verus!
