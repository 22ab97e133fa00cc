//! Function definitions: `fn name(parameters) [: type] { ... }`.

use vstd::prelude::*;
use crate::ast::node_ids::{issued_between, lemma_issued_then, stmt_ids, stmts_ids};
use crate::ast::statement::{
    opt_text, parameters_view, Block, FunctionDefinition, FunctionParameter, Statement,
};
use crate::lexer::token::TokenType;
use crate::parser::block::BlockParser;
use crate::parser::error::ParseError;
use crate::parser::grammar::{block, function_definition, maybe_type, parameter, parameters, Parsed};
use crate::parser::stream::{advanced, outcome, outcome_as, ParserStream};

verus! {

/// A sub-parser for function definition statements.
///
/// Parameter types and the return type are optional annotations.
pub struct FnParser;

impl FnParser {
    /// Parses a complete function definition: its name, parameters, optional return
    /// type and body.
    pub fn parse(stream: &mut ParserStream) -> (r: Result<Statement, ParseError>)
        requires
            old(stream).wf(),
        ensures
            old(stream).last_id() <= final(stream).last_id(),
            r is Ok ==> issued_between(stmt_ids(r->Ok_0), old(stream).last_id(), final(stream).last_id()),
            advanced(*old(stream), *final(stream), 0),
            outcome(
                r,
                function_definition(old(stream).tokens(), old(stream).end(), old(stream).pos()),
                final(stream).pos(),
            ),
            r matches Ok(s) ==> s is FunctionDefinition && old(stream).pos() < final(stream).pos(),
    {
        match stream.expect(TokenType::Fn) {
            Ok(_) => {},
            Err(e) => return Err(e),
        }
        let name = match stream.expect(TokenType::Identifier) {
            Ok(t) => t.owned_value(),
            Err(e) => return Err(e),
        };
        match stream.expect(TokenType::LeftParentheses) {
            Ok(_) => {},
            Err(e) => return Err(e),
        }
        let parameters = match Self::parse_parameters(stream) {
            Ok(p) => p,
            Err(e) => return Err(e),
        };
        match stream.expect(TokenType::RightParentheses) {
            Ok(_) => {},
            Err(e) => return Err(e),
        }
        let return_type = match Self::maybe_parse_return_type(stream) {
            Ok(t) => t,
            Err(e) => return Err(e),
        };
        let body = match Self::parse_body(stream) {
            Ok(b) => b,
            Err(e) => return Err(e),
        };
        let definition = FunctionDefinition::new(name, parameters, return_type, body);
        let ghost before = stream.last_id();
        let id = stream.next_id();
        proof {
            lemma_issued_then(stmts_ids(definition.body.statements@), old(stream).last_id(), before, id.0);
        }
        Ok(Statement::FunctionDefinition(definition, id))
    }

    /// The parameters, separated by commas, up to the closing `)` (which stays in the stream).
    fn parse_parameters(stream: &mut ParserStream) -> (r: Result<Vec<FunctionParameter>, ParseError>)
        requires
            old(stream).wf(),
        ensures
            advanced(*old(stream), *final(stream), 0),
            final(stream).last_id() == old(stream).last_id(),
            outcome_as(
                r,
                parameters(old(stream).tokens(), old(stream).end(), old(stream).pos(), Seq::empty()),
                final(stream).pos(),
                |v: Vec<FunctionParameter>| parameters_view(v@),
            ),
    {
        let ghost ts = stream.tokens();
        let ghost end = stream.end();
        let ghost p0 = stream.pos();
        let ghost i0 = stream.last_id();
        let mut params: Vec<FunctionParameter> = Vec::new();
        assert(parameters_view(params@) =~= Seq::empty());
        loop
            invariant
                stream.wf(),
                ts == old(stream).tokens(),
                end == old(stream).end(),
                p0 == old(stream).pos(),
                i0 == old(stream).last_id(),
                stream.tokens() == ts,
                stream.end() == end,
                p0 <= stream.pos(),
                stream.last_id() == i0,
                parameters(ts, end, stream.pos(), parameters_view(params@)) == parameters(
                    ts,
                    end,
                    p0,
                    Seq::empty(),
                ),
            decreases ts.len() - stream.pos(),
        {
            let closing = match stream.peek() {
                Ok(Some(next)) => next.token_type == TokenType::RightParentheses,
                Ok(None) => true,
                Err(e) => return Err(e),
            };
            if closing {
                return Ok(params);
            }
            match Self::parse_parameter(stream, &mut params) {
                Ok(()) => {},
                Err(e) => return Err(e),
            }
            match stream.expect_separator() {
                Ok(()) => {},
                Err(e) => return Err(e),
            }
        }
    }

    /// Parses one parameter and appends it to `parameters`.
    fn parse_parameter(stream: &mut ParserStream, parameters: &mut Vec<FunctionParameter>) -> (r:
        Result<(), ParseError>)
        requires
            old(stream).wf(),
        ensures
            advanced(*old(stream), *final(stream), 0),
            final(stream).last_id() == old(stream).last_id(),
            match parameter(old(stream).tokens(), old(stream).end(), old(stream).pos()) {
                Parsed::Done(p, q) => r is Ok && parameters_view(final(parameters)@)
                    == parameters_view(old(parameters)@).push(p) && final(stream).pos() == q
                    && old(stream).pos() < q,
                Parsed::Failed(e) => r matches Err(x) && x@ == e,
                Parsed::Halted => false,
            },
    {
        let parameter_name = match stream.expect(TokenType::Identifier) {
            Ok(t) => t.owned_value(),
            Err(e) => return Err(e),
        };
        let data_type = match Self::maybe_parse_data_type(stream) {
            Ok(t) => t,
            Err(e) => return Err(e),
        };
        let parameter = FunctionParameter::new(parameter_name, data_type);
        let ghost before = parameters@;
        parameters.push(parameter);
        proof {
            assert(parameters_view(parameters@) =~= parameters_view(before).push(parameter@));
        }
        Ok(())
    }

    /// An optional type annotation `: type` of a parameter.
    fn maybe_parse_data_type(stream: &mut ParserStream) -> (r: Result<Option<String>, ParseError>)
        requires
            old(stream).wf(),
        ensures
            advanced(*old(stream), *final(stream), 0),
            final(stream).last_id() == old(stream).last_id(),
            outcome_as(
                r,
                maybe_type(old(stream).tokens(), old(stream).end(), old(stream).pos()),
                final(stream).pos(),
                |o: Option<String>| opt_text(o),
            ),
    {
        let mut data_type = None;
        if stream.maybe_matches(TokenType::Colon) {
            let type_token = match stream.expect(TokenType::Identifier) {
                Ok(t) => t,
                Err(e) => return Err(e),
            };
            data_type = Some(type_token.owned_value());
        }
        Ok(data_type)
    }

    /// An optional return type annotation `: type`.
    fn maybe_parse_return_type(stream: &mut ParserStream) -> (r: Result<Option<String>, ParseError>)
        requires
            old(stream).wf(),
        ensures
            advanced(*old(stream), *final(stream), 0),
            final(stream).last_id() == old(stream).last_id(),
            outcome_as(
                r,
                maybe_type(old(stream).tokens(), old(stream).end(), old(stream).pos()),
                final(stream).pos(),
                |o: Option<String>| opt_text(o),
            ),
    {
        let mut return_type = None;
        if stream.maybe_matches(TokenType::Colon) {
            let type_token = match stream.expect(TokenType::Identifier) {
                Ok(t) => t,
                Err(e) => return Err(e),
            };
            return_type = Some(type_token.owned_value());
        }
        Ok(return_type)
    }

    /// The body of the function.
    fn parse_body(stream: &mut ParserStream) -> (r: Result<Block, ParseError>)
        requires
            old(stream).wf(),
        ensures
            old(stream).last_id() <= final(stream).last_id(),
            r is Ok ==> issued_between(stmts_ids(r->Ok_0.statements@), old(stream).last_id(), final(stream).last_id()),
            advanced(*old(stream), *final(stream), 0),
            outcome(
                r,
                block(old(stream).tokens(), old(stream).end(), old(stream).pos()),
                final(stream).pos(),
            ),
            r is Ok ==> final(stream).budget() < old(stream).budget() && old(stream).pos()
                < final(stream).pos(),
    {
        BlockParser::parse(stream)
    }
}

} // verus!
