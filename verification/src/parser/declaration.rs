//! Variable declarations: `var name [: type] [= expression];`.

use vstd::prelude::*;
use crate::ast::node_ids::{issued_between, lemma_issued_then, opt_expression_ids, opt_kind_ids, stmt_ids};
use crate::ast::expr::{Expression, ExpressionKind, SpecExpressionKind};
use crate::ast::statement::{opt_text, Statement, VariableDeclaration};
use crate::lexer::token::TokenType;
use crate::parser::error::ParseError;
use crate::parser::expr::ExpressionParser;
use crate::parser::grammar::{declaration, maybe_initializer, maybe_type};
use crate::parser::stream::{advanced, outcome, outcome_as, ParserStream};

verus! {

/// The shape of an optional expression kind.
pub open spec fn opt_kind(o: Option<ExpressionKind>) -> Option<SpecExpressionKind> {
    match o {
        Some(k) => Some(k@),
        None => None,
    }
}

/// A sub-parser for variable declaration statements.
pub struct VariableDeclarationParser;

impl VariableDeclarationParser {
    /// Parses a variable declaration: the optional type annotation and initializer,
    /// and the closing semicolon. The initializer is placed on the line of `var`.
    pub fn parse(stream: &mut ParserStream) -> (r: Result<Statement, ParseError>)
        requires
            old(stream).wf(),
        ensures
            old(stream).last_id() <= final(stream).last_id(),
            r is Ok ==> issued_between(stmt_ids(r->Ok_0), old(stream).last_id(), final(stream).last_id()),
            advanced(*old(stream), *final(stream), 0),
            outcome(
                r,
                declaration(old(stream).tokens(), old(stream).end(), old(stream).pos()),
                final(stream).pos(),
            ),
            r matches Ok(s) ==> s is VariableDeclaration && old(stream).pos() < final(stream).pos(),
    {
        let var_token = match stream.expect(TokenType::Var) {
            Ok(t) => t,
            Err(e) => return Err(e),
        };
        let variable_name = match stream.expect_identifier() {
            Ok(t) => t,
            Err(e) => return Err(e),
        };
        let data_type = match Self::maybe_datatype(stream) {
            Ok(t) => t,
            Err(e) => return Err(e),
        };
        let expression_kind = match Self::maybe_expression_kind(stream) {
            Ok(k) => k,
            Err(e) => return Err(e),
        };
        match stream.expect(TokenType::Semicolon) {
            Ok(_) => {},
            Err(e) => return Err(e),
        }
        let ghost initializer = expression_kind;
        let expression = match expression_kind {
            Some(kind) => Some(Expression::new(kind, var_token.line)),
            None => None,
        };
        let declaration = VariableDeclaration::new(variable_name.owned_value(), data_type, expression);
        let ghost before = stream.last_id();
        let id = stream.next_id();
        proof {
            assert(opt_expression_ids(declaration.expression) == opt_kind_ids(initializer));
            lemma_issued_then(opt_expression_ids(declaration.expression), old(stream).last_id(), before, id.0);
        }
        Ok(Statement::VariableDeclaration(declaration, id))
    }

    /// An optional type annotation `: type`.
    fn maybe_datatype(stream: &mut ParserStream) -> (r: Result<Option<String>, ParseError>)
        requires
            old(stream).wf(),
        ensures
            advanced(*old(stream), *final(stream), 0),
            final(stream).last_id() == old(stream).last_id(),
            outcome_as(
                r,
                maybe_type(old(stream).tokens(), old(stream).end(), old(stream).pos()),
                final(stream).pos(),
                |o: Option<String>| opt_text(o),
            ),
    {
        if stream.maybe_matches(TokenType::Colon) {
            match stream.expect_identifier() {
                Ok(data_type) => Ok(Some(data_type.owned_value())),
                Err(e) => Err(e),
            }
        } else {
            Ok(None)
        }
    }

    /// An optional initializer `= expression`.
    fn maybe_expression_kind(stream: &mut ParserStream) -> (r: Result<Option<ExpressionKind>, ParseError>)
        requires
            old(stream).wf(),
        ensures
            old(stream).last_id() <= final(stream).last_id(),
            r is Ok ==> issued_between(opt_kind_ids(r->Ok_0), old(stream).last_id(), final(stream).last_id()),
            advanced(*old(stream), *final(stream), 0),
            outcome_as(
                r,
                maybe_initializer(old(stream).tokens(), old(stream).end(), old(stream).pos()),
                final(stream).pos(),
                |o: Option<ExpressionKind>| opt_kind(o),
            ),
    {
        if stream.maybe_matches(TokenType::Equals) {
            match ExpressionParser::parse(stream) {
                Ok(kind) => Ok(Some(kind)),
                Err(e) => Err(e),
            }
        } else {
            Ok(None)
        }
    }
}

} // verus!
