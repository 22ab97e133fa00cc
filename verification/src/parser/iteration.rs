//! Loops: `loop { ... }`.

use vstd::prelude::*;
use crate::ast::node_ids::{issued_between, lemma_issued_then, stmt_ids, stmts_ids};
use crate::ast::statement::{Block, Loop, Statement};
use crate::lexer::token::TokenType;
use crate::parser::block::BlockParser;
use crate::parser::error::ParseError;
use crate::parser::grammar::{block, loop_statement};
use crate::parser::stream::{advanced, outcome, ParserStream};

verus! {

/// A sub-parser for `loop` iteration statements.
pub struct LoopParser;

impl LoopParser {
    /// Parses the `loop` keyword followed by its block.
    pub fn parse(stream: &mut ParserStream) -> (r: Result<Statement, ParseError>)
        requires
            old(stream).wf(),
        ensures
            old(stream).last_id() <= final(stream).last_id(),
            r is Ok ==> issued_between(stmt_ids(r->Ok_0), old(stream).last_id(), final(stream).last_id()),
            advanced(*old(stream), *final(stream), 0),
            outcome(
                r,
                loop_statement(old(stream).tokens(), old(stream).end(), old(stream).pos()),
                final(stream).pos(),
            ),
            r is Ok ==> old(stream).pos() < final(stream).pos(),
        decreases old(stream).tokens().len() - old(stream).pos(), 2nat,
    {
        match stream.expect(TokenType::Loop) {
            Ok(_) => {},
            Err(e) => return Err(e),
        }
        let body = match Self::parse_body(stream) {
            Ok(b) => b,
            Err(e) => return Err(e),
        };
        let ghost before = stream.last_id();
        let id = stream.next_id();
        proof {
            lemma_issued_then(stmts_ids(body.statements@), old(stream).last_id(), before, id.0);
        }
        Ok(Statement::Loop(Loop::new(body), id))
    }

    /// The body of the loop.
    fn parse_body(stream: &mut ParserStream) -> (r: Result<Block, ParseError>)
        requires
            old(stream).wf(),
        ensures
            old(stream).last_id() <= final(stream).last_id(),
            r is Ok ==> issued_between(stmts_ids(r->Ok_0.statements@), old(stream).last_id(), final(stream).last_id()),
            advanced(*old(stream), *final(stream), 0),
            outcome(
                r,
                block(old(stream).tokens(), old(stream).end(), old(stream).pos()),
                final(stream).pos(),
            ),
            r is Ok ==> old(stream).pos() < final(stream).pos(),
        decreases old(stream).tokens().len() - old(stream).pos(), 1nat,
    {
        BlockParser::parse(stream)
    }
}

} // verus!
