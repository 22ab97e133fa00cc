//! Conditionals: `if` / `else if` / `else`.

use vstd::prelude::*;
use crate::ast::node_ids::{expr_ids, issued_between, lemma_issued_concat, lemma_issued_then, lemma_stmts_ids_push, opt_block_ids, stmt_ids, stmts_ids};
use crate::ast::expr::Expression;
use crate::ast::statement::{lemma_stmts_view_push, stmts_view, Block, If, SpecStatement, Statement};
use crate::lexer::token::TokenType;
use crate::parser::block::BlockParser;
use crate::parser::error::ParseError;
use crate::parser::expr::ExpressionParser;
use crate::parser::grammar::{block, conditional, else_part, if_head};
use crate::parser::stream::{advanced, outcome, outcome_as, ParserStream};

verus! {

/// The statements of an optional block.
pub open spec fn opt_block(o: Option<Block>) -> Option<Seq<SpecStatement>> {
    match o {
        Some(b) => Some(b@),
        None => None,
    }
}

/// A sub-parser for `if` / `else if` / `else` conditional statements.
///
/// An `else if` chain nests: the `else` branch is a block holding the next conditional.
pub struct ConditionalParser;

impl ConditionalParser {
    /// Parses a complete `if` statement, with its optional `else if` / `else` branches.
    pub fn parse(stream: &mut ParserStream) -> (r: Result<Statement, ParseError>)
        requires
            old(stream).wf(),
        ensures
            old(stream).last_id() <= final(stream).last_id(),
            r is Ok ==> issued_between(stmt_ids(r->Ok_0), old(stream).last_id(), final(stream).last_id()),
            advanced(*old(stream), *final(stream), 0),
            outcome(
                r,
                conditional(old(stream).tokens(), old(stream).end(), old(stream).pos()),
                final(stream).pos(),
            ),
            r is Ok ==> old(stream).pos() < final(stream).pos(),
        decreases old(stream).tokens().len() - old(stream).pos(), 2nat,
    {
        let (condition, body) = match Self::parse_if(stream) {
            Ok(head) => head,
            Err(e) => return Err(e),
        };
        let ghost middle = stream.last_id();
        let else_body = match Self::maybe_parse_else(stream) {
            Ok(b) => b,
            Err(e) => return Err(e),
        };
        let ghost before = stream.last_id();
        let id = stream.next_id();
        let statement = If::new(condition, body, else_body);
        proof {
            let head = expr_ids(condition.kind) + stmts_ids(body.statements@);
            lemma_issued_concat(head, opt_block_ids(else_body), old(stream).last_id(), middle, before);
            lemma_issued_then(head + opt_block_ids(else_body), old(stream).last_id(), before, id.0);
            assert(stmt_ids(Statement::If(statement, id)) == head + opt_block_ids(else_body) + seq![id.0]);
        }
        Ok(Statement::If(statement, id))
    }

    /// The `if` keyword, the condition (on the line of the `if`) and the body.
    fn parse_if(stream: &mut ParserStream) -> (r: Result<(Expression, Block), ParseError>)
        requires
            old(stream).wf(),
        ensures
            old(stream).last_id() <= final(stream).last_id(),
            r is Ok ==> issued_between(expr_ids(r->Ok_0.0.kind) + stmts_ids(r->Ok_0.1.statements@), old(stream).last_id(), final(stream).last_id()),
            advanced(*old(stream), *final(stream), 0),
            outcome(
                r,
                if_head(old(stream).tokens(), old(stream).end(), old(stream).pos()),
                final(stream).pos(),
            ),
            r is Ok ==> final(stream).budget() < old(stream).budget() && old(stream).pos()
                < final(stream).pos(),
        decreases old(stream).tokens().len() - old(stream).pos(), 1nat,
    {
        let if_token = match stream.expect(TokenType::If) {
            Ok(t) => t,
            Err(e) => return Err(e),
        };
        let ghost start = stream.last_id();
        let condition = match ExpressionParser::parse(stream) {
            Ok(k) => k,
            Err(e) => return Err(e),
        };
        let ghost middle = stream.last_id();
        let body = match Self::parse_body(stream) {
            Ok(b) => b,
            Err(e) => return Err(e),
        };
        proof {
            lemma_issued_concat(expr_ids(condition), stmts_ids(body.statements@), start, middle, stream.last_id());
        }
        Ok((Expression::new(condition, if_token.line), body))
    }

    /// The optional `else` branch: a block, or a nested conditional in a block of its own.
    fn maybe_parse_else(stream: &mut ParserStream) -> (r: Result<Option<Block>, ParseError>)
        requires
            old(stream).wf(),
        ensures
            old(stream).last_id() <= final(stream).last_id(),
            r is Ok ==> issued_between(opt_block_ids(r->Ok_0), old(stream).last_id(), final(stream).last_id()),
            advanced(*old(stream), *final(stream), 0),
            outcome_as(
                r,
                else_part(old(stream).tokens(), old(stream).end(), old(stream).pos()),
                final(stream).pos(),
                |o: Option<Block>| opt_block(o),
            ),
        decreases old(stream).tokens().len() - old(stream).pos(), 3nat,
    {
        if stream.maybe_matches(TokenType::Else) {
            let nested_if = match stream.peek() {
                Ok(Some(next)) => next.token_type == TokenType::If,
                Ok(None) => false,
                Err(e) => return Err(e),
            };
            if nested_if {
                let nested = match Self::parse(stream) {
                    Ok(s) => s,
                    Err(e) => return Err(e),
                };
                let mut statements: Vec<Statement> = Vec::new();
                proof {
                    lemma_stmts_view_push(statements@, nested);
                    lemma_stmts_ids_push(statements@, nested);
                    assert(stmts_ids(statements@) =~= Seq::<usize>::empty());
                    assert(stmts_ids(statements@) + stmt_ids(nested) =~= stmt_ids(nested));
                }
                statements.push(nested);
                return Ok(Some(Block::new(statements)));
            }
            match Self::parse_else(stream) {
                Ok(b) => Ok(Some(b)),
                Err(e) => Err(e),
            }
        } else {
            Ok(None)
        }
    }

    /// The block of an `else` branch.
    fn parse_else(stream: &mut ParserStream) -> (r: Result<Block, ParseError>)
        requires
            old(stream).wf(),
        ensures
            old(stream).last_id() <= final(stream).last_id(),
            r is Ok ==> issued_between(stmts_ids(r->Ok_0.statements@), old(stream).last_id(), final(stream).last_id()),
            advanced(*old(stream), *final(stream), 0),
            outcome(
                r,
                block(old(stream).tokens(), old(stream).end(), old(stream).pos()),
                final(stream).pos(),
            ),
            r is Ok ==> old(stream).pos() < final(stream).pos(),
        decreases old(stream).tokens().len() - old(stream).pos(), 2nat,
    {
        Self::parse_body(stream)
    }

    /// A block body.
    fn parse_body(stream: &mut ParserStream) -> (r: Result<Block, ParseError>)
        requires
            old(stream).wf(),
        ensures
            old(stream).last_id() <= final(stream).last_id(),
            r is Ok ==> issued_between(stmts_ids(r->Ok_0.statements@), old(stream).last_id(), final(stream).last_id()),
            advanced(*old(stream), *final(stream), 0),
            outcome(
                r,
                block(old(stream).tokens(), old(stream).end(), old(stream).pos()),
                final(stream).pos(),
            ),
            r is Ok ==> final(stream).budget() < old(stream).budget() && old(stream).pos()
                < final(stream).pos(),
        decreases old(stream).tokens().len() - old(stream).pos(), 1nat,
    {
        BlockParser::parse(stream)
    }
}

} // verus!
