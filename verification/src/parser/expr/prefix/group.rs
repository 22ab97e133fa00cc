//! Parenthesised expressions.

use vstd::prelude::*;
use crate::ast::node_ids::{expr_ids, issued_between};
use crate::ast::expr::ExpressionKind;
use crate::lexer::token::{Token, TokenType};
use crate::parser::error::ParseError;
use crate::parser::expr::ExpressionParser;
use crate::parser::grammar::group;
use crate::parser::stream::{advanced, outcome, ParserStream};

verus! {

/// A prefix parser for an expression in parentheses.
pub struct GroupParser;

impl GroupParser {
    /// The expression after the `(` just consumed, up to its `)`.
    pub fn parse(stream: &mut ParserStream, token: &Token) -> (r: Result<ExpressionKind, ParseError>)
        requires
            old(stream).wf(),
        ensures
            old(stream).last_id() <= final(stream).last_id(),
            r is Ok ==> issued_between(expr_ids(r->Ok_0), old(stream).last_id(), final(stream).last_id()),
            advanced(*old(stream), *final(stream), 0),
            outcome(
                r,
                group(old(stream).tokens(), old(stream).end(), old(stream).pos()),
                final(stream).pos(),
            ),
        decreases old(stream).tokens().len() - old(stream).pos(), 2nat,
    {
        let inner = match ExpressionParser::parse(stream) {
            Ok(k) => k,
            Err(e) => return Err(e),
        };
        match stream.expect(TokenType::RightParentheses) {
            Ok(_) => Ok(ExpressionKind::Grouped(Box::new(inner))),
            Err(e) => Err(e),
        }
    }
}

} // verus!
