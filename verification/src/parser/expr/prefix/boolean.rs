//! Boolean literals as expressions.

use vstd::prelude::*;
use crate::ast::node_ids::expr_ids;
use crate::ast::expr::{ExpressionKind, SpecExpressionKind};
use crate::lexer::token::{Token, TokenType};
use crate::parser::error::ParseError;

verus! {

/// A prefix parser that turns a `BooleanLiteral` token into an [`ExpressionKind::Boolean`].
pub struct BooleanParser;

impl BooleanParser {
    /// The boolean expression of `token`, which must be a boolean literal.
    pub fn parse(token: &Token) -> (r: Result<ExpressionKind, ParseError>)
        requires
            token.token_type is BooleanLiteral,
        ensures
            r is Ok ==> expr_ids(r->Ok_0) == Seq::<usize>::empty(),
            r matches Ok(k) && k@ == SpecExpressionKind::Boolean(token.token_type->BooleanLiteral_0),
    {
        match token.token_type {
            TokenType::BooleanLiteral(value) => Ok(ExpressionKind::Boolean(value)),
            _ => {
                proof {
                    assert(false);
                }
                Ok(ExpressionKind::Boolean(false))
            },
        }
    }
}

} // verus!
