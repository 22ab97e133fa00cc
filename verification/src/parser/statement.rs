//! Statements inside blocks.

use vstd::prelude::*;
use crate::ast::node_ids::{issued_between, lemma_issued_concat, lemma_stmts_ids_push, opt_stmt_ids, stmt_ids, stmts_ids};
use crate::ast::statement::{lemma_stmts_view_push, stmts_view, Statement};
use crate::lexer::token::{Token, TokenType};
use crate::parser::assignment::AssignmentParser;
use crate::parser::conditional::ConditionalParser;
use crate::parser::declaration::VariableDeclarationParser;
use crate::parser::error::{ParseError, SpecParseError};
use crate::parser::grammar::{assignment, look, statement, statements_till, Look, Parsed};
use crate::parser::iteration::LoopParser;
use crate::parser::stream::{advanced, outcome, outcome_as, ParserStream};

verus! {

/// Parses the statements that may stand inside a block: declarations, conditionals,
/// loops and assignments.
pub struct StatementParser;

impl StatementParser {
    /// Parses the statement at the next token.
    ///
    /// Other statement forms are not implemented, and give `UnimplementedStatement`.
    pub fn parse(stream: &mut ParserStream) -> (r: Result<Statement, ParseError>)
        requires
            old(stream).wf(),
        ensures
            old(stream).last_id() <= final(stream).last_id(),
            r is Ok ==> issued_between(stmt_ids(r->Ok_0), old(stream).last_id(), final(stream).last_id()),
            advanced(*old(stream), *final(stream), 0),
            outcome(
                r,
                statement(old(stream).tokens(), old(stream).end(), old(stream).pos()),
                final(stream).pos(),
            ),
            r is Ok ==> old(stream).pos() < final(stream).pos(),
        decreases old(stream).tokens().len() - old(stream).pos(), 4nat,
    {
        let token = match stream.peek() {
            Ok(Some(t)) => t.duplicate(),
            Ok(None) => return Err(ParseError::UnexpectedEof),
            Err(e) => return Err(e),
        };
        Self::statement_beginning_at(stream, &token)
    }

    /// Parses the statements up to (not including) the next token of type `token_type`,
    /// or up to the end of the input.
    pub fn parse_statements_till(stream: &mut ParserStream, token_type: TokenType) -> (r: Result<
        Vec<Statement>,
        ParseError,
    >)
        requires
            old(stream).wf(),
        ensures
            old(stream).last_id() <= final(stream).last_id(),
            r is Ok ==> issued_between(stmts_ids(r->Ok_0@), old(stream).last_id(), final(stream).last_id()),
            advanced(*old(stream), *final(stream), 0),
            outcome_as(
                r,
                statements_till(
                    old(stream).tokens(),
                    old(stream).end(),
                    old(stream).pos(),
                    token_type,
                    Seq::empty(),
                ),
                final(stream).pos(),
                |v: Vec<Statement>| stmts_view(v@),
            ),
    {
        let ghost ts = stream.tokens();
        let ghost end = stream.end();
        let ghost p0 = stream.pos();
        let ghost b0 = stream.budget();
        let ghost l0 = stream.last_id();
        let mut body: Vec<Statement> = Vec::new();
        loop
            invariant
                stream.wf(),
                ts == old(stream).tokens(),
                end == old(stream).end(),
                p0 == old(stream).pos(),
                b0 == old(stream).budget(),
                stream.tokens() == ts,
                stream.end() == end,
                p0 <= stream.pos(),
                stream.budget() <= b0,
                statements_till(ts, end, stream.pos(), token_type, stmts_view(body@))
                    == statements_till(ts, end, p0, token_type, Seq::empty()),
                l0 == old(stream).last_id(),
                l0 <= stream.last_id(),
                issued_between(stmts_ids(body@), l0, stream.last_id()),
            decreases ts.len() - stream.pos(),
        {
            let stop = match stream.peek() {
                Ok(Some(next)) => next.token_type == token_type,
                Ok(None) => true,
                Err(e) => return Err(e),
            };
            if stop {
                return Ok(body);
            }
            let ghost start = stream.last_id();
            let statement = match Self::parse(stream) {
                Ok(s) => s,
                Err(e) => return Err(e),
            };
            proof {
                lemma_stmts_view_push(body@, statement);
                lemma_stmts_ids_push(body@, statement);
                lemma_issued_concat(stmts_ids(body@), stmt_ids(statement), l0, start, stream.last_id());
            }
            body.push(statement);
        }
    }

    /// Parses the statement that begins with `token`, the next token of the stream.
    fn statement_beginning_at(stream: &mut ParserStream, token: &Token) -> (r: Result<
        Statement,
        ParseError,
    >)
        requires
            old(stream).wf(),
            look(old(stream).tokens(), old(stream).end(), old(stream).pos()) == Look::Token(token.spec()),
        ensures
            old(stream).last_id() <= final(stream).last_id(),
            r is Ok ==> issued_between(stmt_ids(r->Ok_0), old(stream).last_id(), final(stream).last_id()),
            advanced(*old(stream), *final(stream), 0),
            outcome(
                r,
                statement(old(stream).tokens(), old(stream).end(), old(stream).pos()),
                final(stream).pos(),
            ),
            r is Ok ==> old(stream).pos() < final(stream).pos(),
        decreases old(stream).tokens().len() - old(stream).pos(), 3nat,
    {
        match token.token_type {
            TokenType::Var => VariableDeclarationParser::parse(stream),
            TokenType::If => ConditionalParser::parse(stream),
            TokenType::Loop => LoopParser::parse(stream),
            TokenType::Identifier => match Self::maybe_assignment(stream) {
                Ok(Some(statement)) => Ok(statement),
                Ok(None) => Err(ParseError::UnimplementedStatement(token.token_type, token.line)),
                Err(e) => Err(e),
            },
            _ => Err(ParseError::UnimplementedStatement(token.token_type, token.line)),
        }
    }

    /// Parses an assignment when the token after the next one is `=`.
    fn maybe_assignment(stream: &mut ParserStream) -> (r: Result<Option<Statement>, ParseError>)
        requires
            old(stream).wf(),
        ensures
            old(stream).last_id() <= final(stream).last_id(),
            r is Ok ==> issued_between(opt_stmt_ids(r->Ok_0), old(stream).last_id(), final(stream).last_id()),
            advanced(*old(stream), *final(stream), 0),
            match look(old(stream).tokens(), old(stream).end(), old(stream).pos() + 1) {
                Look::Token(next) => if next.token_type == TokenType::Equals {
                    match assignment(old(stream).tokens(), old(stream).end(), old(stream).pos()) {
                        Parsed::Done(s, q) => r matches Ok(Some(x)) && x@ == s && final(stream).pos()
                            == q && old(stream).pos() < q,
                        Parsed::Failed(e) => r matches Err(x) && x@ == e && !(x is UnimplementedStatement),
                        Parsed::Halted => r matches Err(x) && x is UnimplementedStatement,
                    }
                } else {
                    r matches Ok(None)
                },
                Look::Error(e) => r matches Err(x) && x@ == SpecParseError::LexError(e),
                Look::End => r matches Ok(None),
            },
    {
        let is_assignment = match stream.peek_second() {
            Ok(Some(next)) => next.token_type == TokenType::Equals,
            Ok(None) => false,
            Err(e) => return Err(e),
        };
        if is_assignment {
            match AssignmentParser::parse(stream) {
                Ok(statement) => Ok(Some(statement)),
                Err(e) => Err(e),
            }
        } else {
            Ok(None)
        }
    }
}

} // verus!
