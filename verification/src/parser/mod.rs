//! Syntactic analysis (parsing).
//!
//! A recursive descent parser for statements combined with a Pratt
//! (top-down operator precedence) parser for expressions.

pub mod assignment;
pub mod block;
pub mod conditional;
pub mod control_flow;
pub mod declaration;
pub mod error;
pub mod expr;
pub mod function;
pub mod grammar;
pub mod grammar_laws;
pub mod iteration;
pub mod statement;
pub mod stream;

use vstd::prelude::*;
use crate::ast::node_ids::{issued_between, lemma_issued_concat, lemma_stmts_ids_push, stmt_ids, stmts_ids};
use crate::ast::program::{Program, ProgramBuilder};
use crate::ast::statement::{lemma_stmts_view_push, stmts_view};
use crate::lexer::token::TokenType;
use crate::parser::declaration::VariableDeclarationParser;
use crate::parser::error::ParseError;
use crate::parser::function::FnParser;
use crate::parser::grammar::program;
use crate::parser::stream::{advanced, outcome, ParserStream};

verus! {

/// The top-level parser: it reads a whole [`Program`] from a [`ParserStream`].
///
/// Only `var` declarations and `fn` definitions may stand at the top level;
/// any other token gives `ParseError::UnsupportedTopLevelStatement`.
pub struct Parser;

impl Parser {
    /// Parses the entire token stream into a [`Program`].
    ///
    /// Fails on the first token that violates the top-level grammar, on the first
    /// syntax error of a statement, and on a lexical error of the stream; a statement
    /// form inside a block that the parser does not implement gives
    /// `ParseError::UnimplementedStatement`.
    pub fn parse(stream: &mut ParserStream) -> (r: Result<Program, ParseError>)
        requires
            old(stream).wf(),
        ensures
            old(stream).last_id() <= final(stream).last_id(),
            r is Ok ==> issued_between(stmts_ids(r->Ok_0.statements@), old(stream).last_id(), final(stream).last_id()),
            advanced(*old(stream), *final(stream), 0),
            outcome(
                r,
                program(old(stream).tokens(), old(stream).end(), old(stream).pos(), Seq::empty()),
                final(stream).pos(),
            ),
    {
        let ghost ts = stream.tokens();
        let ghost end = stream.end();
        let ghost p0 = stream.pos();
        let ghost b0 = stream.budget();
        let ghost l0 = stream.last_id();
        let mut builder = ProgramBuilder::new();
        loop
            invariant
                stream.wf(),
                ts == old(stream).tokens(),
                end == old(stream).end(),
                p0 == old(stream).pos(),
                b0 == old(stream).budget(),
                stream.tokens() == ts,
                stream.end() == end,
                p0 <= stream.pos(),
                stream.budget() <= b0,
                program(ts, end, stream.pos(), stmts_view(builder.statements@)) == program(
                    ts,
                    end,
                    p0,
                    Seq::empty(),
                ),
                l0 == old(stream).last_id(),
                l0 <= stream.last_id(),
                issued_between(stmts_ids(builder.statements@), l0, stream.last_id()),
            decreases ts.len() - stream.pos(),
        {
            let (token_type, line) = match stream.peek() {
                Ok(Some(token)) => (token.token_type, token.line),
                Ok(None) => return Ok(builder.build()),
                Err(e) => return Err(e),
            };
            let ghost start = stream.last_id();
            let parsed = match token_type {
                TokenType::Var => VariableDeclarationParser::parse(stream),
                TokenType::Fn => FnParser::parse(stream),
                _ => return Err(ParseError::UnsupportedTopLevelStatement(token_type, line)),
            };
            let statement = match parsed {
                Ok(s) => s,
                Err(e) => return Err(e),
            };
            proof {
                lemma_stmts_view_push(builder.statements@, statement);
                lemma_stmts_ids_push(builder.statements@, statement);
                lemma_issued_concat(
                    stmts_ids(builder.statements@),
                    stmt_ids(statement),
                    l0,
                    start,
                    stream.last_id(),
                );
            }
            builder = builder.add(statement);
        }
    }
}

} // verus!
