//! Blocks: `{ statement ... }`.

use vstd::prelude::*;
use crate::ast::node_ids::{issued_between, lemma_issued_concat, lemma_issued_then, lemma_stmts_ids_push, stmt_ids, stmts_ids};
use crate::ast::statement::{lemma_stmts_view_push, stmts_view, Block, Statement};
use crate::lexer::token::TokenType;
use crate::parser::error::ParseError;
use crate::parser::grammar::{block, block_items, Parsed};
use crate::parser::statement::StatementParser;
use crate::parser::stream::{advanced, outcome, ParserStream};

verus! {

/// A parser for block statements `{ ... }`; a `{` inside a block opens a nested block statement.
pub struct BlockParser;

impl BlockParser {
    /// Parses a block, from its opening `{` to its closing `}`.
    pub fn parse(stream: &mut ParserStream) -> (r: Result<Block, ParseError>)
        requires
            old(stream).wf(),
        ensures
            old(stream).last_id() <= final(stream).last_id(),
            r is Ok ==> issued_between(stmts_ids(r->Ok_0.statements@), old(stream).last_id(), final(stream).last_id()),
            advanced(*old(stream), *final(stream), 0),
            outcome(
                r,
                block(old(stream).tokens(), old(stream).end(), old(stream).pos()),
                final(stream).pos(),
            ),
            r is Ok ==> final(stream).budget() < old(stream).budget() && old(stream).pos()
                < final(stream).pos(),
        decreases old(stream).tokens().len() - old(stream).pos(), 0nat,
    {
        let ghost ts = stream.tokens();
        let ghost end = stream.end();
        let ghost p0 = stream.pos();
        let ghost b0 = stream.budget();
        let ghost l0 = stream.last_id();
        match stream.expect(TokenType::LeftBrace) {
            Ok(_) => {},
            Err(e) => return Err(e),
        }
        let mut body: Vec<Statement> = Vec::new();
        loop
            invariant
                stream.wf(),
                ts == old(stream).tokens(),
                end == old(stream).end(),
                p0 == old(stream).pos(),
                b0 == old(stream).budget(),
                stream.tokens() == ts,
                stream.end() == end,
                p0 < stream.pos(),
                stream.budget() < b0,
                block_items(ts, end, stream.pos(), stmts_view(body@)) == block(ts, end, p0),
                l0 == old(stream).last_id(),
                l0 <= stream.last_id(),
                issued_between(stmts_ids(body@), l0, stream.last_id()),
            decreases ts.len() - stream.pos(),
        {
            let next = match stream.peek() {
                Ok(Some(token)) => Some(token.token_type),
                Ok(None) => None,
                Err(e) => return Err(e),
            };
            match next {
                Some(TokenType::LeftBrace) => {
                    let ghost start = stream.last_id();
                    let nested = match Self::parse(stream) {
                        Ok(b) => b,
                        Err(e) => return Err(e),
                    };
                    let ghost before = stream.last_id();
                    let id = stream.next_id();
                    let statement = Statement::Block(nested, id);
                    proof {
                        lemma_stmts_view_push(body@, statement);
                        lemma_issued_then(stmts_ids(nested.statements@), start, before, id.0);
                        lemma_stmts_ids_push(body@, statement);
                        lemma_issued_concat(stmts_ids(body@), stmt_ids(statement), l0, start, stream.last_id());
                    }
                    body.push(statement);
                },
                Some(TokenType::RightBrace) | None => {
                    return match stream.expect(TokenType::RightBrace) {
                        Ok(_) => Ok(Block::new(body)),
                        Err(e) => Err(e),
                    };
                },
                Some(_) => {
                    let ghost start = stream.last_id();
                    let statement = match StatementParser::parse(stream) {
                        Ok(s) => s,
                        Err(e) => return Err(e),
                    };
                    proof {
                        lemma_stmts_view_push(body@, statement);
                        lemma_stmts_ids_push(body@, statement);
                        lemma_issued_concat(stmts_ids(body@), stmt_ids(statement), l0, start, stream.last_id());
                    }
                    body.push(statement);
                },
            }
        }
    }
}

} // verus!
