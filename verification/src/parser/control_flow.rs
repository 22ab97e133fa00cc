//! Loop control flow: `break;`.

use vstd::prelude::*;
use crate::ast::node_ids::{issued_between, lemma_issued_single, stmt_ids};
use crate::ast::statement::{Break, Statement};
use crate::lexer::token::TokenType;
use crate::parser::error::ParseError;
use crate::parser::grammar::break_statement;
use crate::parser::stream::{advanced, outcome, ParserStream};

verus! {

/// A sub-parser for `break` statements inside loops.
pub struct BreakParser;

impl BreakParser {
    /// Parses the `break` keyword followed by a `;` terminator.
    pub fn parse(stream: &mut ParserStream) -> (r: Result<Statement, ParseError>)
        requires
            old(stream).wf(),
        ensures
            old(stream).last_id() <= final(stream).last_id(),
            r is Ok ==> issued_between(stmt_ids(r->Ok_0), old(stream).last_id(), final(stream).last_id()),
            advanced(*old(stream), *final(stream), 0),
            outcome(
                r,
                break_statement(old(stream).tokens(), old(stream).end(), old(stream).pos()),
                final(stream).pos(),
            ),
    {
        match stream.expect(TokenType::Break) {
            Ok(_) => {},
            Err(e) => return Err(e),
        }
        match stream.expect(TokenType::Semicolon) {
            Ok(_) => {},
            Err(e) => return Err(e),
        }
        let ghost before = stream.last_id();
        let id = stream.next_id();
        proof {
            lemma_issued_single(id.0, old(stream).last_id());
        }
        Ok(Statement::Break(Break::new(), id))
    }
}

} // verus!
