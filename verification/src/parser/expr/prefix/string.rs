//! String literals as expressions.

use vstd::prelude::*;
use crate::ast::node_ids::expr_ids;
use vstd::string::StrSliceExecFns;
use crate::ast::expr::{ExpressionKind, SpecExpressionKind};
use crate::lexer::token::{unquoted, Token};
use crate::parser::error::ParseError;

verus! {

/// A prefix parser that turns a `StringLiteral` token into an [`ExpressionKind::String`].
pub struct StringParser;

impl StringParser {
    /// The string expression of `token`: its text without the surrounding quotes.
    pub fn parse(token: &Token) -> (r: Result<ExpressionKind, ParseError>)
        requires
            token.well_formed(),
        ensures
            r is Ok ==> expr_ids(r->Ok_0) == Seq::<usize>::empty(),
            r matches Ok(k) && k@ == SpecExpressionKind::String(unquoted(token.text())),
    {
        Ok(ExpressionKind::String(token.string_value().to_owned()))
    }
}

} // verus!
