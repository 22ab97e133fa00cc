//! Function calls: `callee(argument, ...)`.

use vstd::prelude::*;
use crate::ast::node_ids::{
    arguments_ids, expr_ids, issued_between, lemma_arguments_ids_push, lemma_issued_concat,
    lemma_issued_single,
};
use crate::ast::expr::{kinds_view, lemma_kinds_view_push, ExpressionKind, SpecExpressionKind};
use crate::lexer::token::{Token, TokenType};
use crate::parser::error::ParseError;
use crate::parser::expr::ExpressionParser;
use crate::parser::grammar::call;
use crate::parser::stream::{advanced, outcome, ParserStream};

verus! {

/// An infix parser for function calls like `f(a, b)`: the `(` is the operator.
///
/// Parses comma-separated argument expressions up to the closing `)`.
pub struct FunctionCallParser;

impl FunctionCallParser {
    /// The call of `left` whose `(` was just consumed; the call gets a fresh node identifier.
    pub fn parse(stream: &mut ParserStream, left: ExpressionKind, token: &Token) -> (r: Result<
        ExpressionKind,
        ParseError,
    >)
        requires
            old(stream).wf(),
            old(stream).budget() < usize::MAX,
        ensures
            old(stream).last_id() <= final(stream).last_id(),
            r is Ok ==> forall|lo: int| lo <= old(stream).last_id() && #[trigger] issued_between(expr_ids(left), lo, old(stream).last_id()) ==> issued_between(expr_ids(r->Ok_0), lo, final(stream).last_id()),
            advanced(*old(stream), *final(stream), 1),
            outcome(
                r,
                call(
                    old(stream).tokens(),
                    old(stream).end(),
                    left@,
                    old(stream).pos(),
                    Seq::<SpecExpressionKind>::empty(),
                ),
                final(stream).pos(),
            ),
            r matches Ok(k) ==> k is FunctionCall && k->FunctionCall_2 == crate::ast::statement::NodeId(
                final(stream).last_id() as usize,
            ),
        decreases old(stream).tokens().len() - old(stream).pos(), 2nat,
    {
        let ghost ts = stream.tokens();
        let ghost end = stream.end();
        let ghost p0 = stream.pos();
        let ghost b0 = stream.budget();
        let ghost callee = left@;
        let ghost l0 = stream.last_id();
        let mut arguments: Vec<ExpressionKind> = Vec::new();
        loop
            invariant
                stream.wf(),
                ts == old(stream).tokens(),
                end == old(stream).end(),
                p0 == old(stream).pos(),
                b0 == old(stream).budget(),
                stream.tokens() == ts,
                stream.end() == end,
                p0 <= stream.pos(),
                stream.budget() <= b0,
                b0 < usize::MAX,
                callee == left@,
                l0 == old(stream).last_id(),
                l0 <= stream.last_id(),
                issued_between(arguments_ids(arguments@), l0, stream.last_id()),
                call(ts, end, callee, stream.pos(), kinds_view(arguments@)) == call(
                    ts,
                    end,
                    callee,
                    p0,
                    Seq::<SpecExpressionKind>::empty(),
                ),
            decreases ts.len() - stream.pos(),
        {
            let closing = match stream.peek() {
                Ok(Some(next)) => next.token_type == TokenType::RightParentheses,
                Ok(None) => true,
                Err(e) => return Err(e),
            };
            if closing {
                match stream.expect(TokenType::RightParentheses) {
                    Ok(_) => {},
                    Err(e) => return Err(e),
                }
                let ghost before = stream.last_id();
                let id = stream.next_id();
                proof {
                    lemma_issued_single(id.0, before);
                    assert forall|lo: int|
                        lo <= l0 && #[trigger] issued_between(expr_ids(left), lo, l0) implies issued_between(
                        expr_ids(left) + arguments_ids(arguments@) + seq![id.0],
                        lo,
                        stream.last_id(),
                    ) by {
                        lemma_issued_concat(expr_ids(left), arguments_ids(arguments@), lo, l0, before);
                        lemma_issued_concat(
                            expr_ids(left) + arguments_ids(arguments@),
                            seq![id.0],
                            lo,
                            before,
                            stream.last_id(),
                        );
                    }
                }
                return Ok(ExpressionKind::FunctionCall(Box::new(left), arguments, id));
            }
            let ghost before_argument = stream.last_id();
            let argument = match ExpressionParser::parse(stream) {
                Ok(k) => k,
                Err(e) => return Err(e),
            };
            proof {
                lemma_kinds_view_push(arguments@, argument);
                lemma_arguments_ids_push(arguments@, argument);
                lemma_issued_concat(arguments_ids(arguments@), expr_ids(argument), l0, before_argument, stream.last_id());
            }
            arguments.push(argument);
            match stream.expect_separator() {
                Ok(()) => {},
                Err(e) => return Err(e),
            }
        }
    }
}

} // verus!
