//! Binary operators: arithmetic, comparison and logic.

use vstd::prelude::*;
use crate::ast::node_ids::{expr_ids, issued_between};
use crate::ast::expr::{BinaryOperator, ExpressionKind};
use crate::lexer::token::Token;
use crate::parser::error::ParseError;
use crate::parser::expr::precedence::Precedence;
use crate::parser::expr::ExpressionParser;
use crate::parser::grammar::binary;
use crate::parser::stream::{advanced, outcome, ParserStream};

verus! {

/// An infix parser for binary arithmetic, comparison, and logical expressions.
///
/// Parses the right-hand side at its `precedence`, which makes the operators
/// left-associative, and rejects chained comparisons (e.g., `a < b < c`).
pub struct BinaryExpressionParser;

impl BinaryExpressionParser {
    /// The binary operator `token`, just consumed, between `left` and the operand that follows.
    pub fn parse(
        stream: &mut ParserStream,
        precedence: Precedence,
        left: ExpressionKind,
        token: &Token,
    ) -> (r: Result<ExpressionKind, ParseError>)
        requires
            old(stream).wf(),
        ensures
            old(stream).last_id() <= final(stream).last_id(),
            r is Ok ==> forall|lo: int| lo <= old(stream).last_id() && #[trigger] issued_between(expr_ids(left), lo, old(stream).last_id()) ==> issued_between(expr_ids(r->Ok_0), lo, final(stream).last_id()),
            advanced(*old(stream), *final(stream), 0),
            outcome(
                r,
                binary(
                    old(stream).tokens(),
                    old(stream).end(),
                    left@,
                    token.spec(),
                    old(stream).pos(),
                    precedence,
                ),
                final(stream).pos(),
            ),
        decreases old(stream).tokens().len() - old(stream).pos(), 2nat,
    {
        let operator = match BinaryOperator::try_from(token) {
            Ok(op) => op,
            Err(e) => return Err(ParseError::ExpressionError(e)),
        };
        if operator.is_comparison() {
            let chained = match left.unwrap_grouped() {
                ExpressionKind::Binary(_, left_operator, _) => left_operator.is_comparison(),
                _ => false,
            };
            if chained {
                return Err(ParseError::ChainedComparison(token.line));
            }
        }
        let right = match ExpressionParser::parse_with_precedence(stream, precedence) {
            Ok(k) => k,
            Err(e) => return Err(e),
        };
        Ok(ExpressionKind::Binary(Box::new(left), operator, Box::new(right)))
    }
}

} // verus!
