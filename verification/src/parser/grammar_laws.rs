//! What the expression grammar guarantees of every expression it accepts.
//!
//! Operators bind by precedence and associate to the left: in every expression the
//! parser produces, the left operand of an operator binds at least as tightly as the
//! operator and the right operand more tightly (parentheses, calls and unary
//! operators make atoms), so `a * b + c` groups as `(a * b) + c` and `a - b - c` as
//! `(a - b) - c`.
//!
//! Comparisons do not chain: the parser refuses `a < b < c`, and also `(a < b) < c`,
//! so no comparison it produces has a comparison as its left operand, parenthesised
//! or not.

use vstd::prelude::*;
use crate::ast::expr::{binary_operator_of, is_comparison_operator, BinaryOperator, SpecExpressionKind};
use crate::lexer::error::SpecLexError;
use crate::lexer::token::{SpecToken, TokenType};
use crate::ast::statement::SpecFunctionParameter;
use crate::parser::expr::precedence::{precedence_level, precedence_of, Precedence};
use crate::parser::grammar::{
    call, chained_comparison, expect_type, expression, infix, infix_loop, look, maybe_type,
    next_token, parameter, parameters, prefix, separator, Look, Parsed, Separator,
};

verus! {

/// Whether no comparison in `e` has a comparison as its left operand (parentheses
/// aside).
pub open spec fn unchained(e: SpecExpressionKind) -> bool
    decreases e,
{
    match e {
        SpecExpressionKind::Binary(left, op, right) => !(is_comparison_operator(op)
            && chained_comparison(*left)) && unchained(*left) && unchained(*right),
        SpecExpressionKind::Unary(operand, _) => unchained(*operand),
        SpecExpressionKind::Grouped(inner) => unchained(*inner),
        SpecExpressionKind::FunctionCall(callee, arguments) => unchained(*callee)
            && forall|i: int| 0 <= i < arguments.len() ==> unchained(#[trigger] arguments[i]),
        _ => true,
    }
}

/// No chained comparisons: every expression the grammar accepts is unchained.
pub proof fn lemma_expression_unchained(
    ts: Seq<SpecToken>,
    end: Option<SpecLexError>,
    pos: int,
    prec: Precedence,
)
    requires
        expression(ts, end, pos, prec) is Done,
    ensures
        unchained(expression(ts, end, pos, prec)->Done_0),
    decreases ts.len() - pos, 0nat,
{
    match next_token(ts, end, pos) {
        Parsed::Done(tok, p1) => {
            lemma_prefix_unchained(ts, end, tok, p1);
            let (left, p2) = (prefix(ts, end, tok, p1)->Done_0, prefix(ts, end, tok, p1)->Done_1);
            lemma_infix_loop_unchained(ts, end, left, p2, prec);
        },
        _ => {},
    }
}

/// Every prefix expression the grammar accepts is unchained.
pub proof fn lemma_prefix_unchained(ts: Seq<SpecToken>, end: Option<SpecLexError>, tok: SpecToken, pos: int)
    requires
        prefix(ts, end, tok, pos) is Done,
    ensures
        unchained(prefix(ts, end, tok, pos)->Done_0),
    decreases ts.len() - pos, 2nat,
{
    match tok.token_type {
        TokenType::Minus | TokenType::Bang => {
            lemma_expression_unchained(ts, end, pos, Precedence::Unary);
        },
        TokenType::LeftParentheses => {
            lemma_expression_unchained(ts, end, pos, Precedence::Lowest);
        },
        _ => {},
    }
}

/// Extending an unchained expression with the infix operators that follow keeps it
/// unchained.
pub proof fn lemma_infix_loop_unchained(
    ts: Seq<SpecToken>,
    end: Option<SpecLexError>,
    left: SpecExpressionKind,
    pos: int,
    prec: Precedence,
)
    requires
        unchained(left),
        infix_loop(ts, end, left, pos, prec) is Done,
    ensures
        unchained(infix_loop(ts, end, left, pos, prec)->Done_0),
    decreases ts.len() - pos, 0nat,
{
    match look(ts, end, pos) {
        Look::Token(tok) => {
            if infix(ts, end, left, tok, pos + 1) is Done {
                lemma_infix_unchained(ts, end, left, tok, pos + 1);
                let (next, p) = (
                    infix(ts, end, left, tok, pos + 1)->Done_0,
                    infix(ts, end, left, tok, pos + 1)->Done_1,
                );
                if pos < p <= ts.len() && infix_loop(ts, end, next, p, prec) is Done {
                    lemma_infix_loop_unchained(ts, end, next, p, prec);
                }
            }
        },
        _ => {},
    }
}

/// An infix operator applied to an unchained expression gives an unchained one.
pub proof fn lemma_infix_unchained(
    ts: Seq<SpecToken>,
    end: Option<SpecLexError>,
    left: SpecExpressionKind,
    tok: SpecToken,
    pos: int,
)
    requires
        unchained(left),
        infix(ts, end, left, tok, pos) is Done,
    ensures
        unchained(infix(ts, end, left, tok, pos)->Done_0),
    decreases ts.len() - pos, 2nat,
{
    if tok.token_type == TokenType::LeftParentheses {
        lemma_call_unchained(ts, end, left, pos, Seq::empty());
    } else if binary_operator_of(tok.token_type) is Some {
        let prec = precedence_of(tok.token_type);
        if expression(ts, end, pos, prec) is Done {
            lemma_expression_unchained(ts, end, pos, prec);
        }
    }
}

/// The call of an unchained callee with unchained arguments gives an unchained call.
pub proof fn lemma_call_unchained(
    ts: Seq<SpecToken>,
    end: Option<SpecLexError>,
    callee: SpecExpressionKind,
    pos: int,
    args: Seq<SpecExpressionKind>,
)
    requires
        unchained(callee),
        forall|i: int| 0 <= i < args.len() ==> unchained(#[trigger] args[i]),
        call(ts, end, callee, pos, args) is Done,
    ensures
        unchained(call(ts, end, callee, pos, args)->Done_0),
    decreases ts.len() - pos, 1nat,
{
    match look(ts, end, pos) {
        Look::Token(t) => {
            if t.token_type != TokenType::RightParentheses {
                if expression(ts, end, pos, Precedence::Lowest) is Done {
                    lemma_expression_unchained(ts, end, pos, Precedence::Lowest);
                    let (arg, p) = (
                        expression(ts, end, pos, Precedence::Lowest)->Done_0,
                        expression(ts, end, pos, Precedence::Lowest)->Done_1,
                    );
                    if pos < p <= ts.len() {
                        match separator(ts, end, p) {
                            Separator::Next(q) => {
                                let more = args.push(arg);
                                assert forall|i: int| 0 <= i < more.len() implies unchained(
                                    #[trigger] more[i],
                                ) by {
                                    if i < args.len() {
                                        assert(more[i] == args[i]);
                                    }
                                }
                                lemma_call_unchained(ts, end, callee, q, more);
                            },
                            _ => {},
                        }
                    }
                }
            }
        },
        _ => {},
    }
}

/// How tightly a binary operator binds.
pub open spec fn operator_precedence(op: BinaryOperator) -> Precedence {
    match op {
        BinaryOperator::Plus | BinaryOperator::Minus => Precedence::Plus,
        BinaryOperator::Multiply | BinaryOperator::Divide => Precedence::Star,
        BinaryOperator::GreaterThan | BinaryOperator::LessThan | BinaryOperator::GreaterThanEquals
        | BinaryOperator::LessThanEquals => Precedence::Comparison,
        BinaryOperator::EqualsEquals | BinaryOperator::NotEquals => Precedence::Equality,
        BinaryOperator::And => Precedence::And,
        BinaryOperator::Or => Precedence::Or,
    }
}

/// How tightly an expression binds as an operand: a binary operation by its operator,
/// anything else as an atom, above every operator.
pub open spec fn node_level(e: SpecExpressionKind) -> int {
    match e {
        SpecExpressionKind::Binary(_, op, _) => precedence_level(operator_precedence(op)) as int,
        _ => 100,
    }
}

/// Whether every binary operation in `e` has a left operand that binds at least as
/// tightly as its operator and a right operand that binds more tightly.
pub open spec fn binds_by_precedence(e: SpecExpressionKind) -> bool
    decreases e,
{
    match e {
        SpecExpressionKind::Binary(left, op, right) => {
            &&& node_level(*left) >= precedence_level(operator_precedence(op))
            &&& node_level(*right) > precedence_level(operator_precedence(op))
            &&& binds_by_precedence(*left)
            &&& binds_by_precedence(*right)
        },
        SpecExpressionKind::Unary(operand, _) => binds_by_precedence(*operand),
        SpecExpressionKind::Grouped(inner) => binds_by_precedence(*inner),
        SpecExpressionKind::FunctionCall(callee, arguments) => binds_by_precedence(*callee)
            && forall|i: int| 0 <= i < arguments.len() ==> binds_by_precedence(#[trigger] arguments[i]),
        _ => true,
    }
}

/// Whether the token at `pos`, if any, binds at most at level `n` as an infix operator.
pub open spec fn next_binds_at_most(ts: Seq<SpecToken>, end: Option<SpecLexError>, pos: int, n: int) -> bool {
    match look(ts, end, pos) {
        Look::Token(t) => precedence_level(precedence_of(t.token_type)) <= n,
        _ => true,
    }
}

/// The token of a binary operator binds as the operator does.
pub proof fn lemma_operator_precedence(t: TokenType)
    requires
        binary_operator_of(t) is Some,
    ensures
        precedence_of(t) == operator_precedence(binary_operator_of(t)->0),
{
}

/// Precedence and associativity: every expression the grammar accepts binds by
/// precedence; its top operator binds more tightly than `prec`, and what follows it
/// does not.
pub proof fn lemma_expression_binds(
    ts: Seq<SpecToken>,
    end: Option<SpecLexError>,
    pos: int,
    prec: Precedence,
)
    requires
        expression(ts, end, pos, prec) is Done,
    ensures
        binds_by_precedence(expression(ts, end, pos, prec)->Done_0),
        node_level(expression(ts, end, pos, prec)->Done_0) > precedence_level(prec),
        next_binds_at_most(
            ts,
            end,
            expression(ts, end, pos, prec)->Done_1,
            precedence_level(prec) as int,
        ),
    decreases ts.len() - pos, 0nat,
{
    match next_token(ts, end, pos) {
        Parsed::Done(tok, p1) => {
            lemma_prefix_binds(ts, end, tok, p1);
            let (left, p2) = (prefix(ts, end, tok, p1)->Done_0, prefix(ts, end, tok, p1)->Done_1);
            lemma_infix_loop_binds(ts, end, left, p2, prec);
        },
        _ => {},
    }
}

/// Every prefix expression the grammar accepts binds by precedence and is an atom.
pub proof fn lemma_prefix_binds(ts: Seq<SpecToken>, end: Option<SpecLexError>, tok: SpecToken, pos: int)
    requires
        prefix(ts, end, tok, pos) is Done,
    ensures
        binds_by_precedence(prefix(ts, end, tok, pos)->Done_0),
        node_level(prefix(ts, end, tok, pos)->Done_0) == 100,
    decreases ts.len() - pos, 2nat,
{
    match tok.token_type {
        TokenType::Minus | TokenType::Bang => {
            lemma_expression_binds(ts, end, pos, Precedence::Unary);
        },
        TokenType::LeftParentheses => {
            lemma_expression_binds(ts, end, pos, Precedence::Lowest);
        },
        _ => {},
    }
}

/// Extending an expression that binds by precedence, and binds at least as tightly as
/// the operator that follows it, with the operators that follow keeps it binding by
/// precedence.
pub proof fn lemma_infix_loop_binds(
    ts: Seq<SpecToken>,
    end: Option<SpecLexError>,
    left: SpecExpressionKind,
    pos: int,
    prec: Precedence,
)
    requires
        binds_by_precedence(left),
        node_level(left) > precedence_level(prec),
        next_binds_at_most(ts, end, pos, node_level(left)),
        infix_loop(ts, end, left, pos, prec) is Done,
    ensures
        binds_by_precedence(infix_loop(ts, end, left, pos, prec)->Done_0),
        node_level(infix_loop(ts, end, left, pos, prec)->Done_0) > precedence_level(prec),
        next_binds_at_most(
            ts,
            end,
            infix_loop(ts, end, left, pos, prec)->Done_1,
            precedence_level(prec) as int,
        ),
    decreases ts.len() - pos, 0nat,
{
    match look(ts, end, pos) {
        Look::Token(tok) => {
            if precedence_level(prec) < precedence_level(precedence_of(tok.token_type)) {
                lemma_infix_binds(ts, end, left, tok, pos + 1);
                let (next, p) = (
                    infix(ts, end, left, tok, pos + 1)->Done_0,
                    infix(ts, end, left, tok, pos + 1)->Done_1,
                );
                lemma_infix_loop_binds(ts, end, next, p, prec);
            }
        },
        _ => {},
    }
}

/// An infix operator applied to an operand that binds at least as tightly as the
/// operator gives an expression that binds by precedence, binds at the operator's
/// level (or as an atom, for a call), and is followed by nothing binding more tightly.
pub proof fn lemma_infix_binds(
    ts: Seq<SpecToken>,
    end: Option<SpecLexError>,
    left: SpecExpressionKind,
    tok: SpecToken,
    pos: int,
)
    requires
        binds_by_precedence(left),
        node_level(left) >= precedence_level(precedence_of(tok.token_type)),
        infix(ts, end, left, tok, pos) is Done,
    ensures
        binds_by_precedence(infix(ts, end, left, tok, pos)->Done_0),
        node_level(infix(ts, end, left, tok, pos)->Done_0) >= precedence_level(
            precedence_of(tok.token_type),
        ),
        next_binds_at_most(
            ts,
            end,
            infix(ts, end, left, tok, pos)->Done_1,
            node_level(infix(ts, end, left, tok, pos)->Done_0),
        ),
    decreases ts.len() - pos, 2nat,
{
    if tok.token_type == TokenType::LeftParentheses {
        lemma_call_binds(ts, end, left, pos, Seq::empty());
    } else if binary_operator_of(tok.token_type) is Some {
        lemma_operator_precedence(tok.token_type);
        let prec = precedence_of(tok.token_type);
        lemma_expression_binds(ts, end, pos, prec);
    }
}

/// The call of a callee that binds by precedence, with arguments that do, binds by
/// precedence.
pub proof fn lemma_call_binds(
    ts: Seq<SpecToken>,
    end: Option<SpecLexError>,
    callee: SpecExpressionKind,
    pos: int,
    args: Seq<SpecExpressionKind>,
)
    requires
        binds_by_precedence(callee),
        forall|i: int| 0 <= i < args.len() ==> binds_by_precedence(#[trigger] args[i]),
        call(ts, end, callee, pos, args) is Done,
    ensures
        binds_by_precedence(call(ts, end, callee, pos, args)->Done_0),
        node_level(call(ts, end, callee, pos, args)->Done_0) == 100,
    decreases ts.len() - pos, 1nat,
{
    match look(ts, end, pos) {
        Look::Token(t) => {
            if t.token_type != TokenType::RightParentheses {
                lemma_expression_binds(ts, end, pos, Precedence::Lowest);
                let (arg, p) = (
                    expression(ts, end, pos, Precedence::Lowest)->Done_0,
                    expression(ts, end, pos, Precedence::Lowest)->Done_1,
                );
                if pos < p <= ts.len() {
                    match separator(ts, end, p) {
                        Separator::Next(q) => {
                            let more = args.push(arg);
                            assert forall|i: int| 0 <= i < more.len() implies binds_by_precedence(
                                #[trigger] more[i],
                            ) by {
                                if i < args.len() {
                                    assert(more[i] == args[i]);
                                }
                            }
                            lemma_call_binds(ts, end, callee, q, more);
                        },
                        _ => {},
                    }
                }
            }
        },
        _ => {},
    }
}

/// The number of commas among the tokens `lo..hi`.
pub open spec fn commas(ts: Seq<SpecToken>, lo: int, hi: int) -> nat
    decreases hi - lo,
{
    if lo >= hi {
        0
    } else {
        (if ts[lo].token_type == TokenType::Comma {
            1nat
        } else {
            0nat
        }) + commas(ts, lo + 1, hi)
    }
}

/// The number of items of a comma-separated list over the tokens `lo..hi`: none for no
/// tokens, else one more than the commas.
pub open spec fn list_items(ts: Seq<SpecToken>, lo: int, hi: int) -> nat {
    if lo < hi {
        commas(ts, lo, hi) + 1
    } else {
        0
    }
}

/// Tokens that are not commas add no comma.
proof fn lemma_commas_skip(ts: Seq<SpecToken>, lo: int, mid: int, hi: int)
    requires
        lo <= mid <= hi,
        forall|k: int| lo <= k < mid ==> (#[trigger] ts[k]).token_type != TokenType::Comma,
    ensures
        commas(ts, lo, hi) == commas(ts, mid, hi),
    decreases mid - lo,
{
    if lo < mid {
        lemma_commas_skip(ts, lo + 1, mid, hi);
    }
}

/// A parameter is a name with an optional `: type`: one to three tokens, none a comma.
proof fn lemma_parameter_tokens(ts: Seq<SpecToken>, end: Option<SpecLexError>, pos: int)
    requires
        0 <= pos,
    ensures
        parameter(ts, end, pos) matches Parsed::Done(_, p) ==> pos < p <= pos + 3 && p <= ts.len()
            && forall|k: int| pos <= k < p ==> (#[trigger] ts[k]).token_type != TokenType::Comma,
{
}

/// The parameter list of a definition: the parameters parsed are those before it,
/// then one parameter for each item of the comma-separated list that stands before
/// the closing `)`, in order.
pub proof fn lemma_parameters_one_per_item(
    ts: Seq<SpecToken>,
    end: Option<SpecLexError>,
    pos: int,
    params: Seq<SpecFunctionParameter>,
)
    requires
        0 <= pos <= ts.len(),
    ensures
        parameters(ts, end, pos, params) matches Parsed::Done(ps, q) ==> pos <= q <= ts.len()
            && params.len() <= ps.len() && ps.subrange(0, params.len() as int) == params && (q
            < ts.len() && ts[q].token_type == TokenType::RightParentheses ==> ps.len() == params.len()
            + list_items(ts, pos, q)),
    decreases ts.len() - pos,
{
    if pos < ts.len() && ts[pos].token_type != TokenType::RightParentheses {
        lemma_parameter_tokens(ts, end, pos);
        if let Parsed::Done(prm, p) = parameter(ts, end, pos) {
            if let Separator::Next(q1) = separator(ts, end, p) {
                let next = params.push(prm);
                lemma_parameters_one_per_item(ts, end, q1, next);
                if let Parsed::Done(ps, q) = parameters(ts, end, q1, next) {
                    assert(ps.subrange(0, next.len() as int).subrange(0, params.len() as int)
                        =~= ps.subrange(0, params.len() as int));
                    assert(next.subrange(0, params.len() as int) =~= params);
                    if q < ts.len() && ts[q].token_type == TokenType::RightParentheses {
                        lemma_commas_skip(ts, pos, p, q);
                        if q1 == p + 1 {
                            assert(q > q1);
                        }
                    }
                }
            }
        }
    }
}

} // verus!
