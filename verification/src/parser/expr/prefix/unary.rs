//! Unary operators: `-x` and `!flag`.

use vstd::prelude::*;
use crate::ast::node_ids::{expr_ids, issued_between};
use crate::ast::expr::{ExpressionKind, UnaryOperator};
use crate::lexer::token::Token;
use crate::parser::error::ParseError;
use crate::parser::expr::precedence::Precedence;
use crate::parser::expr::ExpressionParser;
use crate::parser::grammar::unary;
use crate::parser::stream::{advanced, outcome, ParserStream};

verus! {

/// A prefix parser for unary expressions such as `-x` and `!flag`.
///
/// The operand is parsed at `Precedence::Unary` so that it binds tightly
/// (e.g., `-a * b` is `(-a) * b`, not `-(a * b)`).
pub struct UnaryExpressionParser;

impl UnaryExpressionParser {
    /// The unary operator `token`, just consumed, applied to the operand that follows.
    pub fn parse(stream: &mut ParserStream, token: &Token) -> (r: Result<ExpressionKind, ParseError>)
        requires
            old(stream).wf(),
        ensures
            old(stream).last_id() <= final(stream).last_id(),
            r is Ok ==> issued_between(expr_ids(r->Ok_0), old(stream).last_id(), final(stream).last_id()),
            advanced(*old(stream), *final(stream), 0),
            outcome(
                r,
                unary(old(stream).tokens(), old(stream).end(), token.spec(), old(stream).pos()),
                final(stream).pos(),
            ),
        decreases old(stream).tokens().len() - old(stream).pos(), 2nat,
    {
        let operand = match ExpressionParser::parse_with_precedence(stream, Precedence::Unary) {
            Ok(k) => k,
            Err(e) => return Err(e),
        };
        let operator = match UnaryOperator::try_from(token) {
            Ok(op) => op,
            Err(e) => return Err(ParseError::ExpressionError(e)),
        };
        Ok(ExpressionKind::Unary(Box::new(operand), operator))
    }
}

} // verus!
