//! Identifiers as expressions.

use vstd::prelude::*;
use crate::ast::node_ids::{expr_ids, issued_between};
use crate::ast::expr::{ExpressionKind, SpecExpressionKind};
use crate::lexer::token::Token;
use crate::parser::error::ParseError;
use crate::parser::stream::{advanced, ParserStream};

verus! {

/// A prefix parser that turns an `Identifier` token into an [`ExpressionKind::Identifier`]
/// with a fresh node identifier.
pub struct IdentifierParser;

impl IdentifierParser {
    /// The identifier expression named by `token`.
    pub fn parse(stream: &mut ParserStream, token: &Token) -> (r: Result<ExpressionKind, ParseError>)
        requires
            old(stream).wf(),
            old(stream).budget() < usize::MAX,
            token.well_formed(),
        ensures
            r is Ok ==> issued_between(expr_ids(r->Ok_0), old(stream).last_id(), final(stream).last_id()),
            advanced(*old(stream), *final(stream), 1),
            final(stream).pos() == old(stream).pos(),
            final(stream).last_id() == old(stream).last_id() + 1,
            r matches Ok(k) && k@ == SpecExpressionKind::Identifier(token.text()),
    {
        let id = stream.next_id();
        Ok(ExpressionKind::Identifier(token.owned_value(), id))
    }
}

} // verus!
