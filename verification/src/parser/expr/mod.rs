//! The expression parser: a Pratt parser driven by operator precedence.

pub mod infix;
pub mod precedence;
pub mod prefix;

use vstd::prelude::*;
use crate::ast::node_ids::{expr_ids, issued_between};
use crate::ast::expr::ExpressionKind;
use crate::lexer::token::{Token, TokenType};
use crate::parser::error::{ParseError, SpecParseError};
use crate::parser::expr::infix::binary::BinaryExpressionParser;
use crate::parser::expr::infix::call::FunctionCallParser;
use crate::parser::expr::precedence::{precedence_of, Precedence};
use crate::parser::expr::prefix::boolean::BooleanParser;
use crate::parser::expr::prefix::group::GroupParser;
use crate::parser::expr::prefix::identifier::IdentifierParser;
use crate::parser::expr::prefix::string::StringParser;
use crate::parser::expr::prefix::unary::UnaryExpressionParser;
use crate::parser::expr::prefix::whole_number::WholeNumberParser;
use crate::parser::grammar::{expression, infix, infix_loop, look, prefix, Look};
use crate::parser::stream::{advanced, outcome, ParserStream};

verus! {

/// Parses expressions: a prefix expression, then the infix operators that bind
/// tighter than the precedence it was asked for.
pub struct ExpressionParser;

impl ExpressionParser {
    /// Parses a whole expression at the next token.
    pub fn parse(stream: &mut ParserStream) -> (r: Result<ExpressionKind, ParseError>)
        requires
            old(stream).wf(),
        ensures
            old(stream).last_id() <= final(stream).last_id(),
            r is Ok ==> issued_between(expr_ids(r->Ok_0), old(stream).last_id(), final(stream).last_id()),
            advanced(*old(stream), *final(stream), 0),
            outcome(
                r,
                expression(old(stream).tokens(), old(stream).end(), old(stream).pos(), Precedence::Lowest),
                final(stream).pos(),
            ),
            r is Ok ==> old(stream).pos() < final(stream).pos(),
        decreases old(stream).tokens().len() - old(stream).pos(), 1nat,
    {
        Self::parse_with_precedence(stream, Precedence::Lowest)
    }

    /// Parses an expression whose infix operators bind tighter than `precedence`.
    pub fn parse_with_precedence(stream: &mut ParserStream, precedence: Precedence) -> (r: Result<
        ExpressionKind,
        ParseError,
    >)
        requires
            old(stream).wf(),
        ensures
            old(stream).last_id() <= final(stream).last_id(),
            r is Ok ==> issued_between(expr_ids(r->Ok_0), old(stream).last_id(), final(stream).last_id()),
            advanced(*old(stream), *final(stream), 0),
            outcome(
                r,
                expression(old(stream).tokens(), old(stream).end(), old(stream).pos(), precedence),
                final(stream).pos(),
            ),
            r is Ok ==> old(stream).pos() < final(stream).pos(),
        decreases old(stream).tokens().len() - old(stream).pos(), 0nat,
    {
        let ghost ts = stream.tokens();
        let ghost end = stream.end();
        let ghost p0 = stream.pos();
        let ghost b0 = stream.budget();
        let ghost l0 = stream.last_id();
        let token = match stream.expect_token() {
            Ok(t) => t,
            Err(e) => return Err(e),
        };
        let mut left = match Self::parse_prefix(stream, &token) {
            Ok(k) => k,
            Err(e) => return Err(e),
        };
        loop
            invariant
                stream.wf(),
                ts == old(stream).tokens(),
                end == old(stream).end(),
                p0 == old(stream).pos(),
                b0 == old(stream).budget(),
                stream.tokens() == ts,
                stream.end() == end,
                p0 < stream.pos(),
                stream.budget() <= b0,
                infix_loop(ts, end, left@, stream.pos(), precedence) == expression(ts, end, p0, precedence),
                l0 == old(stream).last_id(),
                l0 <= stream.last_id(),
                issued_between(expr_ids(left), l0, stream.last_id()),
            decreases ts.len() - stream.pos(),
        {
            let next = match Self::precedence(stream) {
                Ok(p) => p,
                Err(e) => return Err(e),
            };
            if !precedence.is_lower_than(next) {
                return Ok(left);
            }
            let token = match stream.expect_token() {
                Ok(t) => t,
                Err(e) => return Err(e),
            };
            left = match Self::parse_infix(stream, left, &token) {
                Ok(k) => k,
                Err(e) => return Err(e),
            };
        }
    }

    /// Parses the expression that starts with the prefix token `token`, just consumed.
    pub fn parse_prefix(stream: &mut ParserStream, token: &Token) -> (r: Result<
        ExpressionKind,
        ParseError,
    >)
        requires
            old(stream).wf(),
            old(stream).budget() < usize::MAX,
            token.well_formed(),
        ensures
            old(stream).last_id() <= final(stream).last_id(),
            r is Ok ==> issued_between(expr_ids(r->Ok_0), old(stream).last_id(), final(stream).last_id()),
            advanced(*old(stream), *final(stream), 1),
            outcome(
                r,
                prefix(old(stream).tokens(), old(stream).end(), token.spec(), old(stream).pos()),
                final(stream).pos(),
            ),
            !(token.token_type is Identifier || token.token_type is WholeNumber
                || token.token_type is StringLiteral || token.token_type is BooleanLiteral
                || token.token_type is Minus || token.token_type is Bang
                || token.token_type is LeftParentheses) ==> *final(stream) == *old(stream),
        decreases old(stream).tokens().len() - old(stream).pos(), 3nat,
    {
        match token.token_type {
            TokenType::Identifier => IdentifierParser::parse(stream, token),
            TokenType::WholeNumber => WholeNumberParser::parse(token),
            TokenType::StringLiteral => StringParser::parse(token),
            TokenType::BooleanLiteral(_) => BooleanParser::parse(token),
            TokenType::Minus | TokenType::Bang => UnaryExpressionParser::parse(stream, token),
            TokenType::LeftParentheses => GroupParser::parse(stream, token),
            _ => Err(ParseError::UnsupportedPrefixExpression(token.token_type, token.line)),
        }
    }

    /// Parses the infix operator `token`, just consumed, applied to `left`.
    pub fn parse_infix(stream: &mut ParserStream, left: ExpressionKind, token: &Token) -> (r: Result<
        ExpressionKind,
        ParseError,
    >)
        requires
            old(stream).wf(),
            old(stream).budget() < usize::MAX,
        ensures
            old(stream).last_id() <= final(stream).last_id(),
            r is Ok ==> forall|lo: int| lo <= old(stream).last_id() && #[trigger] issued_between(expr_ids(left), lo, old(stream).last_id()) ==> issued_between(expr_ids(r->Ok_0), lo, final(stream).last_id()),
            advanced(*old(stream), *final(stream), 1),
            outcome(
                r,
                infix(old(stream).tokens(), old(stream).end(), left@, token.spec(), old(stream).pos()),
                final(stream).pos(),
            ),
            !(token.token_type is Plus || token.token_type is Minus || token.token_type is Star
                || token.token_type is Slash || token.token_type is EqualsEquals
                || token.token_type is BangEquals || token.token_type is GreaterThan
                || token.token_type is GreaterThanEquals || token.token_type is LessThan
                || token.token_type is LessThanEquals || token.token_type is And
                || token.token_type is Or || token.token_type is LeftParentheses) ==> *final(stream)
                == *old(stream),
        decreases old(stream).tokens().len() - old(stream).pos(), 3nat,
    {
        match token.token_type {
            TokenType::Plus | TokenType::Minus => BinaryExpressionParser::parse(
                stream,
                Precedence::Plus,
                left,
                token,
            ),
            TokenType::Star | TokenType::Slash => BinaryExpressionParser::parse(
                stream,
                Precedence::Star,
                left,
                token,
            ),
            TokenType::EqualsEquals | TokenType::BangEquals => BinaryExpressionParser::parse(
                stream,
                Precedence::Equality,
                left,
                token,
            ),
            TokenType::GreaterThan | TokenType::GreaterThanEquals | TokenType::LessThan
            | TokenType::LessThanEquals => BinaryExpressionParser::parse(
                stream,
                Precedence::Comparison,
                left,
                token,
            ),
            TokenType::And => BinaryExpressionParser::parse(stream, Precedence::And, left, token),
            TokenType::Or => BinaryExpressionParser::parse(stream, Precedence::Or, left, token),
            TokenType::LeftParentheses => FunctionCallParser::parse(stream, left, token),
            _ => Err(ParseError::UnsupportedInfixExpression(token.token_type, token.line)),
        }
    }

    /// The precedence of the next token as an infix operator; `Lowest` at the end of the input.
    fn precedence(stream: &ParserStream) -> (r: Result<Precedence, ParseError>)
        requires
            stream.wf(),
        ensures
            match look(stream.tokens(), stream.end(), stream.pos()) {
                Look::Token(t) => r == Ok::<Precedence, ParseError>(precedence_of(t.token_type)),
                Look::Error(e) => r matches Err(err) && err@ == SpecParseError::LexError(e),
                Look::End => r == Ok::<Precedence, ParseError>(Precedence::Lowest),
            },
    {
        match stream.peek() {
            Ok(Some(token)) => Ok(Precedence::of(token.token_type)),
            Ok(None) => Ok(Precedence::Lowest),
            Err(e) => Err(e),
        }
    }
}

} // verus!
