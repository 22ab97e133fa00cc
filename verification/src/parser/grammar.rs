//! The grammar of the language, stated over the token stream.
//!
//! Each function takes the tokens, the lexical error that ended them (if any) and a
//! position, and says what the parser makes of the input from there: `Done` with the
//! value parsed and the position after it, `Failed` with the error the parser reports,
//! or `Halted` where the parser stops without an answer (a statement form it does not
//! implement).

use vstd::prelude::*;
use crate::ast::expr::{
    binary_operator_of, is_comparison_operator, strip_groups, unary_operator_of,
    SpecExpression, SpecExpressionError, SpecExpressionKind,
};
use crate::ast::statement::{
    SpecAssignment, SpecFunctionDefinition, SpecFunctionParameter, SpecIf, SpecStatement,
    SpecVariableDeclaration,
};
use crate::lexer::error::SpecLexError;
use crate::lexer::scan::is_digit;
use crate::lexer::token::{unquoted, SpecToken, TokenType};
use crate::parser::error::SpecParseError;
use crate::parser::expr::precedence::{precedence_level, precedence_of, Precedence};

verus! {

/// What the parser makes of the input from a position.
pub enum Parsed<T> {
    Done(T, int),
    Failed(SpecParseError),
    Halted,
}

/// What stands at a position of the token stream.
pub enum Look {
    Token(SpecToken),
    Error(SpecLexError),
    End,
}

/// What stands at `pos`: a token, the lexical error that ended the tokens, or the end.
pub open spec fn look(ts: Seq<SpecToken>, end: Option<SpecLexError>, pos: int) -> Look {
    if 0 <= pos < ts.len() {
        Look::Token(ts[pos])
    } else {
        match end {
            Some(e) => Look::Error(e),
            None => Look::End,
        }
    }
}

/// The token at `pos`, whatever its type.
pub open spec fn next_token(ts: Seq<SpecToken>, end: Option<SpecLexError>, pos: int) -> Parsed<
    SpecToken,
> {
    match look(ts, end, pos) {
        Look::Token(t) => Parsed::Done(t, pos + 1),
        Look::Error(e) => Parsed::Failed(SpecParseError::LexError(e)),
        Look::End => Parsed::Failed(SpecParseError::UnexpectedEof),
    }
}

/// The token at `pos`, which must be of type `t`.
pub open spec fn expect_type(
    ts: Seq<SpecToken>,
    end: Option<SpecLexError>,
    pos: int,
    t: TokenType,
) -> Parsed<SpecToken> {
    match look(ts, end, pos) {
        Look::Token(tok) => if tok.token_type == t {
            Parsed::Done(tok, pos + 1)
        } else {
            Parsed::Failed(SpecParseError::UnexpectedTokenType(t, tok.token_type, tok.line))
        },
        Look::Error(e) => Parsed::Failed(SpecParseError::LexError(e)),
        Look::End => Parsed::Failed(SpecParseError::UnexpectedEof),
    }
}

/// Whether the token at `pos` is of type `t`.
pub open spec fn next_is(ts: Seq<SpecToken>, end: Option<SpecLexError>, pos: int, t: TokenType) -> bool {
    look(ts, end, pos) matches Look::Token(tok) && tok.token_type == t
}

/// What follows an item of a parenthesised list.
pub enum Separator {
    /// The list goes on (or closes) at this position.
    Next(int),
    /// The list is malformed.
    Stop(SpecParseError),
}

/// After an item of a list: a comma that does not directly precede `)`, or `)`, or the end.
pub open spec fn separator(ts: Seq<SpecToken>, end: Option<SpecLexError>, pos: int) -> Separator {
    match look(ts, end, pos) {
        Look::Token(t) => if t.token_type == TokenType::Comma {
            match look(ts, end, pos + 1) {
                Look::Token(u) => if u.token_type == TokenType::RightParentheses {
                    Separator::Stop(SpecParseError::TrailingComma(u.line))
                } else {
                    Separator::Next(pos + 1)
                },
                Look::Error(e) => Separator::Stop(SpecParseError::LexError(e)),
                Look::End => Separator::Next(pos + 1),
            }
        } else if t.token_type == TokenType::RightParentheses {
            Separator::Next(pos)
        } else {
            Separator::Stop(
                SpecParseError::UnexpectedTokenType(
                    TokenType::RightParentheses,
                    t.token_type,
                    t.line,
                ),
            )
        },
        Look::Error(e) => Separator::Stop(SpecParseError::LexError(e)),
        Look::End => Separator::Next(pos),
    }
}

// ----- integer literals -----

/// The value of an ASCII decimal digit.
pub open spec fn digit_value(c: char) -> nat {
    ((c as int) - ('0' as int)) as nat
}

/// Whether every character is an ASCII decimal digit.
pub open spec fn all_digits(s: Seq<char>) -> bool {
    forall|i: int| 0 <= i < s.len() ==> is_digit(#[trigger] s[i])
}

/// The value of a run of decimal digits.
pub open spec fn digits_value(s: Seq<char>) -> nat
    decreases s.len(),
{
    if s.len() == 0 {
        0
    } else {
        digits_value(s.drop_last()) * 10 + digit_value(s.last())
    }
}

/// The 32-bit integer a text denotes, as `i32::from_str` reads it: an optional sign,
/// then at least one decimal digit, within the range of `i32`.
pub open spec fn parse_i32(s: Seq<char>) -> Option<i32> {
    if s.len() > 0 && s[0] == '-' {
        let d = s.drop_first();
        if d.len() > 0 && all_digits(d) && digits_value(d) <= 2147483648 {
            Some((0 - digits_value(d)) as i32)
        } else {
            None
        }
    } else {
        let d = if s.len() > 0 && s[0] == '+' {
            s.drop_first()
        } else {
            s
        };
        if d.len() > 0 && all_digits(d) && digits_value(d) <= 2147483647 {
            Some(digits_value(d) as i32)
        } else {
            None
        }
    }
}

// ----- expressions -----

/// An identifier token as an expression.
pub open spec fn identifier_expression(tok: SpecToken, pos: int) -> Parsed<SpecExpressionKind> {
    Parsed::Done(SpecExpressionKind::Identifier(tok.text), pos)
}

/// A whole number token as an expression: its value, if it fits in an `i32`.
pub open spec fn whole_number_expression(tok: SpecToken, pos: int) -> Parsed<SpecExpressionKind> {
    match parse_i32(tok.text) {
        Some(v) => Parsed::Done(SpecExpressionKind::I32(v), pos),
        None => Parsed::Failed(
            SpecParseError::ExpressionError(SpecExpressionError::ParseIntError(tok.text, tok.line)),
        ),
    }
}

/// A string literal token as an expression: its text without the quotes.
pub open spec fn string_expression(tok: SpecToken, pos: int) -> Parsed<SpecExpressionKind> {
    Parsed::Done(SpecExpressionKind::String(unquoted(tok.text)), pos)
}

/// A boolean literal token as an expression.
pub open spec fn boolean_expression(tok: SpecToken, pos: int) -> Parsed<SpecExpressionKind> {
    match tok.token_type {
        TokenType::BooleanLiteral(b) => Parsed::Done(SpecExpressionKind::Boolean(b), pos),
        _ => Parsed::Halted,
    }
}

/// Whether a comparison applied to `left` would chain comparisons: `left`, without
/// its parentheses, is itself a comparison.
pub open spec fn chained_comparison(left: SpecExpressionKind) -> bool {
    strip_groups(left) matches SpecExpressionKind::Binary(_, op, _) && is_comparison_operator(op)
}

/// An expression at `pos` whose operators bind tighter than `prec`.
pub open spec fn expression(
    ts: Seq<SpecToken>,
    end: Option<SpecLexError>,
    pos: int,
    prec: Precedence,
) -> Parsed<SpecExpressionKind>
    decreases ts.len() - pos, 0nat,
{
    match next_token(ts, end, pos) {
        Parsed::Done(tok, p1) => match prefix(ts, end, tok, p1) {
            Parsed::Done(left, p2) => if p1 <= p2 <= ts.len() {
                infix_loop(ts, end, left, p2, prec)
            } else {
                Parsed::Halted
            },
            Parsed::Failed(e) => Parsed::Failed(e),
            Parsed::Halted => Parsed::Halted,
        },
        Parsed::Failed(e) => Parsed::Failed(e),
        Parsed::Halted => Parsed::Halted,
    }
}

/// The expression that starts with the prefix token `tok`; the input goes on at `pos`.
pub open spec fn prefix(ts: Seq<SpecToken>, end: Option<SpecLexError>, tok: SpecToken, pos: int) -> Parsed<
    SpecExpressionKind,
>
    decreases ts.len() - pos, 2nat,
{
    match tok.token_type {
        TokenType::Identifier => identifier_expression(tok, pos),
        TokenType::WholeNumber => whole_number_expression(tok, pos),
        TokenType::StringLiteral => string_expression(tok, pos),
        TokenType::BooleanLiteral(_) => boolean_expression(tok, pos),
        TokenType::Minus | TokenType::Bang => unary(ts, end, tok, pos),
        TokenType::LeftParentheses => group(ts, end, pos),
        _ => Parsed::Failed(SpecParseError::UnsupportedPrefixExpression(tok.token_type, tok.line)),
    }
}

/// A unary operator `tok` applied to the operand at `pos`.
pub open spec fn unary(ts: Seq<SpecToken>, end: Option<SpecLexError>, tok: SpecToken, pos: int) -> Parsed<
    SpecExpressionKind,
>
    decreases ts.len() - pos, 1nat,
{
    match expression(ts, end, pos, Precedence::Unary) {
        Parsed::Done(operand, p) => match unary_operator_of(tok.token_type) {
            Some(op) => Parsed::Done(SpecExpressionKind::Unary(Box::new(operand), op), p),
            None => Parsed::Failed(
                SpecParseError::ExpressionError(
                    SpecExpressionError::UnsupportedOperator(tok.token_type, tok.line),
                ),
            ),
        },
        Parsed::Failed(e) => Parsed::Failed(e),
        Parsed::Halted => Parsed::Halted,
    }
}

/// A parenthesised expression whose `(` came just before `pos`.
pub open spec fn group(ts: Seq<SpecToken>, end: Option<SpecLexError>, pos: int) -> Parsed<
    SpecExpressionKind,
>
    decreases ts.len() - pos, 1nat,
{
    match expression(ts, end, pos, Precedence::Lowest) {
        Parsed::Done(inner, p) => match expect_type(ts, end, p, TokenType::RightParentheses) {
            Parsed::Done(_, q) => Parsed::Done(SpecExpressionKind::Grouped(Box::new(inner)), q),
            Parsed::Failed(e) => Parsed::Failed(e),
            Parsed::Halted => Parsed::Halted,
        },
        Parsed::Failed(e) => Parsed::Failed(e),
        Parsed::Halted => Parsed::Halted,
    }
}

/// Extends `left` with the infix operators at `pos` that bind tighter than `prec`.
pub open spec fn infix_loop(
    ts: Seq<SpecToken>,
    end: Option<SpecLexError>,
    left: SpecExpressionKind,
    pos: int,
    prec: Precedence,
) -> Parsed<SpecExpressionKind>
    decreases ts.len() - pos, 0nat,
{
    match look(ts, end, pos) {
        Look::Error(e) => Parsed::Failed(SpecParseError::LexError(e)),
        Look::End => Parsed::Done(left, pos),
        Look::Token(tok) => if precedence_level(prec) < precedence_level(
            precedence_of(tok.token_type),
        ) {
            match infix(ts, end, left, tok, pos + 1) {
                Parsed::Done(next, p) => if pos < p <= ts.len() {
                    infix_loop(ts, end, next, p, prec)
                } else {
                    Parsed::Halted
                },
                Parsed::Failed(e) => Parsed::Failed(e),
                Parsed::Halted => Parsed::Halted,
            }
        } else {
            Parsed::Done(left, pos)
        },
    }
}

/// The infix operator `tok` applied to `left`; its right side starts at `pos`.
pub open spec fn infix(
    ts: Seq<SpecToken>,
    end: Option<SpecLexError>,
    left: SpecExpressionKind,
    tok: SpecToken,
    pos: int,
) -> Parsed<SpecExpressionKind>
    decreases ts.len() - pos, 2nat,
{
    if tok.token_type == TokenType::LeftParentheses {
        call(ts, end, left, pos, Seq::empty())
    } else if binary_operator_of(tok.token_type) is Some {
        binary(ts, end, left, tok, pos, precedence_of(tok.token_type))
    } else {
        Parsed::Failed(SpecParseError::UnsupportedInfixExpression(tok.token_type, tok.line))
    }
}

/// The binary operator `tok` between `left` and the operand at `pos`, which binds at `prec`.
pub open spec fn binary(
    ts: Seq<SpecToken>,
    end: Option<SpecLexError>,
    left: SpecExpressionKind,
    tok: SpecToken,
    pos: int,
    prec: Precedence,
) -> Parsed<SpecExpressionKind>
    decreases ts.len() - pos, 1nat,
{
    match binary_operator_of(tok.token_type) {
        None => Parsed::Failed(
            SpecParseError::ExpressionError(
                SpecExpressionError::UnsupportedOperator(tok.token_type, tok.line),
            ),
        ),
        Some(op) => if is_comparison_operator(op) && chained_comparison(left) {
            Parsed::Failed(SpecParseError::ChainedComparison(tok.line))
        } else {
            match expression(ts, end, pos, prec) {
                Parsed::Done(right, p) => Parsed::Done(
                    SpecExpressionKind::Binary(Box::new(left), op, Box::new(right)),
                    p,
                ),
                Parsed::Failed(e) => Parsed::Failed(e),
                Parsed::Halted => Parsed::Halted,
            }
        },
    }
}

/// The call of `callee` with the arguments `args` so far, when `)` closes it at `pos`.
pub open spec fn close_call(
    ts: Seq<SpecToken>,
    end: Option<SpecLexError>,
    callee: SpecExpressionKind,
    pos: int,
    args: Seq<SpecExpressionKind>,
) -> Parsed<SpecExpressionKind> {
    match expect_type(ts, end, pos, TokenType::RightParentheses) {
        Parsed::Done(_, q) => Parsed::Done(
            SpecExpressionKind::FunctionCall(Box::new(callee), args),
            q,
        ),
        Parsed::Failed(e) => Parsed::Failed(e),
        Parsed::Halted => Parsed::Halted,
    }
}

/// The arguments of a call of `callee` from `pos` on, after the arguments `args`.
pub open spec fn call(
    ts: Seq<SpecToken>,
    end: Option<SpecLexError>,
    callee: SpecExpressionKind,
    pos: int,
    args: Seq<SpecExpressionKind>,
) -> Parsed<SpecExpressionKind>
    decreases ts.len() - pos, 1nat,
{
    match look(ts, end, pos) {
        Look::Error(e) => Parsed::Failed(SpecParseError::LexError(e)),
        Look::End => close_call(ts, end, callee, pos, args),
        Look::Token(t) => if t.token_type == TokenType::RightParentheses {
            close_call(ts, end, callee, pos, args)
        } else {
            match expression(ts, end, pos, Precedence::Lowest) {
                Parsed::Done(arg, p) => if pos < p <= ts.len() {
                    match separator(ts, end, p) {
                        Separator::Next(q) => call(ts, end, callee, q, args.push(arg)),
                        Separator::Stop(e) => Parsed::Failed(e),
                    }
                } else {
                    Parsed::Halted
                },
                Parsed::Failed(e) => Parsed::Failed(e),
                Parsed::Halted => Parsed::Halted,
            }
        },
    }
}

// ----- statements -----

/// An optional type annotation `: name` at `pos`.
pub open spec fn maybe_type(ts: Seq<SpecToken>, end: Option<SpecLexError>, pos: int) -> Parsed<
    Option<Seq<char>>,
> {
    if next_is(ts, end, pos, TokenType::Colon) {
        match expect_type(ts, end, pos + 1, TokenType::Identifier) {
            Parsed::Done(t, p) => Parsed::Done(Some(t.text), p),
            Parsed::Failed(e) => Parsed::Failed(e),
            Parsed::Halted => Parsed::Halted,
        }
    } else {
        Parsed::Done(None, pos)
    }
}

/// An optional initializer `= expression` at `pos`.
pub open spec fn maybe_initializer(ts: Seq<SpecToken>, end: Option<SpecLexError>, pos: int) -> Parsed<
    Option<SpecExpressionKind>,
> {
    if next_is(ts, end, pos, TokenType::Equals) {
        match expression(ts, end, pos + 1, Precedence::Lowest) {
            Parsed::Done(k, p) => Parsed::Done(Some(k), p),
            Parsed::Failed(e) => Parsed::Failed(e),
            Parsed::Halted => Parsed::Halted,
        }
    } else {
        Parsed::Done(None, pos)
    }
}

/// The initializer of a declaration, on the line of its `var` keyword.
pub open spec fn initializer_at(init: Option<SpecExpressionKind>, line: usize) -> Option<
    SpecExpression,
> {
    match init {
        Some(k) => Some(SpecExpression { kind: k, line }),
        None => None,
    }
}

/// `var name [: type] [= expression];` at `pos`.
pub open spec fn declaration(ts: Seq<SpecToken>, end: Option<SpecLexError>, pos: int) -> Parsed<
    SpecStatement,
> {
    match expect_type(ts, end, pos, TokenType::Var) {
        Parsed::Done(var_token, p1) => match expect_type(ts, end, p1, TokenType::Identifier) {
            Parsed::Done(name, p2) => match maybe_type(ts, end, p2) {
                Parsed::Done(data_type, p3) => match maybe_initializer(ts, end, p3) {
                    Parsed::Done(init, p4) => match expect_type(ts, end, p4, TokenType::Semicolon) {
                        Parsed::Done(_, p5) => Parsed::Done(
                            SpecStatement::VariableDeclaration(
                                SpecVariableDeclaration {
                                    variable: name.text,
                                    data_type,
                                    expression: initializer_at(init, var_token.line),
                                },
                            ),
                            p5,
                        ),
                        Parsed::Failed(e) => Parsed::Failed(e),
                        Parsed::Halted => Parsed::Halted,
                    },
                    Parsed::Failed(e) => Parsed::Failed(e),
                    Parsed::Halted => Parsed::Halted,
                },
                Parsed::Failed(e) => Parsed::Failed(e),
                Parsed::Halted => Parsed::Halted,
            },
            Parsed::Failed(e) => Parsed::Failed(e),
            Parsed::Halted => Parsed::Halted,
        },
        Parsed::Failed(e) => Parsed::Failed(e),
        Parsed::Halted => Parsed::Halted,
    }
}

/// `name = expression;` at `pos`.
pub open spec fn assignment(ts: Seq<SpecToken>, end: Option<SpecLexError>, pos: int) -> Parsed<
    SpecStatement,
> {
    match expect_type(ts, end, pos, TokenType::Identifier) {
        Parsed::Done(name, p1) => match expect_type(ts, end, p1, TokenType::Equals) {
            Parsed::Done(_, p2) => match expression(ts, end, p2, Precedence::Lowest) {
                Parsed::Done(k, p3) => match expect_type(ts, end, p3, TokenType::Semicolon) {
                    Parsed::Done(_, p4) => Parsed::Done(
                        SpecStatement::Assignment(
                            SpecAssignment {
                                variable: name.text,
                                expression: SpecExpression { kind: k, line: name.line },
                            },
                        ),
                        p4,
                    ),
                    Parsed::Failed(e) => Parsed::Failed(e),
                    Parsed::Halted => Parsed::Halted,
                },
                Parsed::Failed(e) => Parsed::Failed(e),
                Parsed::Halted => Parsed::Halted,
            },
            Parsed::Failed(e) => Parsed::Failed(e),
            Parsed::Halted => Parsed::Halted,
        },
        Parsed::Failed(e) => Parsed::Failed(e),
        Parsed::Halted => Parsed::Halted,
    }
}

/// `break;` at `pos`.
pub open spec fn break_statement(ts: Seq<SpecToken>, end: Option<SpecLexError>, pos: int) -> Parsed<
    SpecStatement,
> {
    match expect_type(ts, end, pos, TokenType::Break) {
        Parsed::Done(_, p1) => match expect_type(ts, end, p1, TokenType::Semicolon) {
            Parsed::Done(_, p2) => Parsed::Done(SpecStatement::Break, p2),
            Parsed::Failed(e) => Parsed::Failed(e),
            Parsed::Halted => Parsed::Halted,
        },
        Parsed::Failed(e) => Parsed::Failed(e),
        Parsed::Halted => Parsed::Halted,
    }
}

/// The statement that starts at `pos`.
pub open spec fn statement(ts: Seq<SpecToken>, end: Option<SpecLexError>, pos: int) -> Parsed<
    SpecStatement,
>
    decreases ts.len() - pos, 2nat,
{
    match look(ts, end, pos) {
        Look::Token(tok) => if tok.token_type == TokenType::Var {
            declaration(ts, end, pos)
        } else if tok.token_type == TokenType::If {
            conditional(ts, end, pos)
        } else if tok.token_type == TokenType::Loop {
            loop_statement(ts, end, pos)
        } else if tok.token_type == TokenType::Identifier {
            match look(ts, end, pos + 1) {
                Look::Token(next) => if next.token_type == TokenType::Equals {
                    assignment(ts, end, pos)
                } else {
                    Parsed::Halted
                },
                Look::Error(e) => Parsed::Failed(SpecParseError::LexError(e)),
                Look::End => Parsed::Halted,
            }
        } else {
            Parsed::Halted
        },
        Look::Error(e) => Parsed::Failed(SpecParseError::LexError(e)),
        Look::End => Parsed::Failed(SpecParseError::UnexpectedEof),
    }
}

/// `if condition { ... }` at `pos`: the condition, on the line of the `if`, and the body.
pub open spec fn if_head(ts: Seq<SpecToken>, end: Option<SpecLexError>, pos: int) -> Parsed<
    (SpecExpression, Seq<SpecStatement>),
>
    decreases ts.len() - pos, 0nat,
{
    match expect_type(ts, end, pos, TokenType::If) {
        Parsed::Done(if_token, p1) => match expression(ts, end, p1, Precedence::Lowest) {
            Parsed::Done(condition, p2) => if p1 <= p2 <= ts.len() {
                match block(ts, end, p2) {
                    Parsed::Done(body, p3) => Parsed::Done(
                        (SpecExpression { kind: condition, line: if_token.line }, body),
                        p3,
                    ),
                    Parsed::Failed(e) => Parsed::Failed(e),
                    Parsed::Halted => Parsed::Halted,
                }
            } else {
                Parsed::Halted
            },
            Parsed::Failed(e) => Parsed::Failed(e),
            Parsed::Halted => Parsed::Halted,
        },
        Parsed::Failed(e) => Parsed::Failed(e),
        Parsed::Halted => Parsed::Halted,
    }
}

/// `if condition { ... } [else ...]` at `pos`.
pub open spec fn conditional(ts: Seq<SpecToken>, end: Option<SpecLexError>, pos: int) -> Parsed<
    SpecStatement,
>
    decreases ts.len() - pos, 1nat,
{
    match if_head(ts, end, pos) {
        Parsed::Done((condition, body), p1) => if pos < p1 <= ts.len() {
            match else_part(ts, end, p1) {
                Parsed::Done(else_body, p2) => Parsed::Done(
                    SpecStatement::If(SpecIf { condition, body, else_body }),
                    p2,
                ),
                Parsed::Failed(e) => Parsed::Failed(e),
                Parsed::Halted => Parsed::Halted,
            }
        } else {
            Parsed::Halted
        },
        Parsed::Failed(e) => Parsed::Failed(e),
        Parsed::Halted => Parsed::Halted,
    }
}

/// The optional `else` branch at `pos`: a block, or a nested conditional as a
/// block of its own.
pub open spec fn else_part(ts: Seq<SpecToken>, end: Option<SpecLexError>, pos: int) -> Parsed<
    Option<Seq<SpecStatement>>,
>
    decreases ts.len() - pos, 1nat,
{
    if next_is(ts, end, pos, TokenType::Else) {
        match look(ts, end, pos + 1) {
            Look::Error(e) => Parsed::Failed(SpecParseError::LexError(e)),
            _ => if next_is(ts, end, pos + 1, TokenType::If) {
                match conditional(ts, end, pos + 1) {
                    Parsed::Done(nested, p) => Parsed::Done(Some(seq![nested]), p),
                    Parsed::Failed(e) => Parsed::Failed(e),
                    Parsed::Halted => Parsed::Halted,
                }
            } else {
                match block(ts, end, pos + 1) {
                    Parsed::Done(b, p) => Parsed::Done(Some(b), p),
                    Parsed::Failed(e) => Parsed::Failed(e),
                    Parsed::Halted => Parsed::Halted,
                }
            },
        }
    } else {
        Parsed::Done(None, pos)
    }
}

/// `loop { ... }` at `pos`.
pub open spec fn loop_statement(ts: Seq<SpecToken>, end: Option<SpecLexError>, pos: int) -> Parsed<
    SpecStatement,
>
    decreases ts.len() - pos, 1nat,
{
    match expect_type(ts, end, pos, TokenType::Loop) {
        Parsed::Done(_, p1) => match block(ts, end, p1) {
            Parsed::Done(body, p2) => Parsed::Done(SpecStatement::Loop(body), p2),
            Parsed::Failed(e) => Parsed::Failed(e),
            Parsed::Halted => Parsed::Halted,
        },
        Parsed::Failed(e) => Parsed::Failed(e),
        Parsed::Halted => Parsed::Halted,
    }
}

/// `{ ... }` at `pos`: the statements of the block.
pub open spec fn block(ts: Seq<SpecToken>, end: Option<SpecLexError>, pos: int) -> Parsed<
    Seq<SpecStatement>,
>
    decreases ts.len() - pos, 1nat,
{
    match expect_type(ts, end, pos, TokenType::LeftBrace) {
        Parsed::Done(_, p1) => block_items(ts, end, p1, Seq::empty()),
        Parsed::Failed(e) => Parsed::Failed(e),
        Parsed::Halted => Parsed::Halted,
    }
}

/// The statements `items` of a block, when `}` closes it at `pos`.
pub open spec fn close_block(
    ts: Seq<SpecToken>,
    end: Option<SpecLexError>,
    pos: int,
    items: Seq<SpecStatement>,
) -> Parsed<Seq<SpecStatement>> {
    match expect_type(ts, end, pos, TokenType::RightBrace) {
        Parsed::Done(_, p) => Parsed::Done(items, p),
        Parsed::Failed(e) => Parsed::Failed(e),
        Parsed::Halted => Parsed::Halted,
    }
}

/// The rest of a block from `pos` on, after the statements `items`; a `{` opens a
/// nested block statement.
pub open spec fn block_items(
    ts: Seq<SpecToken>,
    end: Option<SpecLexError>,
    pos: int,
    items: Seq<SpecStatement>,
) -> Parsed<Seq<SpecStatement>>
    decreases ts.len() - pos, 3nat,
{
    match look(ts, end, pos) {
        Look::Error(e) => Parsed::Failed(SpecParseError::LexError(e)),
        Look::End => close_block(ts, end, pos, items),
        Look::Token(t) => if t.token_type == TokenType::LeftBrace {
            match block(ts, end, pos) {
                Parsed::Done(b, p) => if pos < p <= ts.len() {
                    block_items(ts, end, p, items.push(SpecStatement::Block(b)))
                } else {
                    Parsed::Halted
                },
                Parsed::Failed(e) => Parsed::Failed(e),
                Parsed::Halted => Parsed::Halted,
            }
        } else if t.token_type == TokenType::RightBrace {
            close_block(ts, end, pos, items)
        } else {
            match statement(ts, end, pos) {
                Parsed::Done(s, p) => if pos < p <= ts.len() {
                    block_items(ts, end, p, items.push(s))
                } else {
                    Parsed::Halted
                },
                Parsed::Failed(e) => Parsed::Failed(e),
                Parsed::Halted => Parsed::Halted,
            }
        },
    }
}

/// The statements from `pos` up to (not including) a token of type `t`, after `items`.
pub open spec fn statements_till(
    ts: Seq<SpecToken>,
    end: Option<SpecLexError>,
    pos: int,
    t: TokenType,
    items: Seq<SpecStatement>,
) -> Parsed<Seq<SpecStatement>>
    decreases ts.len() - pos,
{
    match look(ts, end, pos) {
        Look::Error(e) => Parsed::Failed(SpecParseError::LexError(e)),
        Look::End => Parsed::Done(items, pos),
        Look::Token(tok) => if tok.token_type == t {
            Parsed::Done(items, pos)
        } else {
            match statement(ts, end, pos) {
                Parsed::Done(s, p) => if pos < p <= ts.len() {
                    statements_till(ts, end, p, t, items.push(s))
                } else {
                    Parsed::Halted
                },
                Parsed::Failed(e) => Parsed::Failed(e),
                Parsed::Halted => Parsed::Halted,
            }
        },
    }
}

/// A parameter `name [: type]` at `pos`.
pub open spec fn parameter(ts: Seq<SpecToken>, end: Option<SpecLexError>, pos: int) -> Parsed<
    SpecFunctionParameter,
> {
    match expect_type(ts, end, pos, TokenType::Identifier) {
        Parsed::Done(name, p1) => match maybe_type(ts, end, p1) {
            Parsed::Done(data_type, p2) => Parsed::Done(
                SpecFunctionParameter { name: name.text, data_type },
                p2,
            ),
            Parsed::Failed(e) => Parsed::Failed(e),
            Parsed::Halted => Parsed::Halted,
        },
        Parsed::Failed(e) => Parsed::Failed(e),
        Parsed::Halted => Parsed::Halted,
    }
}

/// The parameters of a definition from `pos` on, after the parameters `params`.
pub open spec fn parameters(
    ts: Seq<SpecToken>,
    end: Option<SpecLexError>,
    pos: int,
    params: Seq<SpecFunctionParameter>,
) -> Parsed<Seq<SpecFunctionParameter>>
    decreases ts.len() - pos,
{
    match look(ts, end, pos) {
        Look::Error(e) => Parsed::Failed(SpecParseError::LexError(e)),
        Look::End => Parsed::Done(params, pos),
        Look::Token(t) => if t.token_type == TokenType::RightParentheses {
            Parsed::Done(params, pos)
        } else {
            match parameter(ts, end, pos) {
                Parsed::Done(prm, p) => if pos < p <= ts.len() {
                    match separator(ts, end, p) {
                        Separator::Next(q) => parameters(ts, end, q, params.push(prm)),
                        Separator::Stop(e) => Parsed::Failed(e),
                    }
                } else {
                    Parsed::Halted
                },
                Parsed::Failed(e) => Parsed::Failed(e),
                Parsed::Halted => Parsed::Halted,
            }
        },
    }
}

/// `fn name(parameters) [: type] { ... }` at `pos`.
pub open spec fn function_definition(ts: Seq<SpecToken>, end: Option<SpecLexError>, pos: int) -> Parsed<
    SpecStatement,
> {
    match expect_type(ts, end, pos, TokenType::Fn) {
        Parsed::Done(_, p1) => match expect_type(ts, end, p1, TokenType::Identifier) {
            Parsed::Done(name, p2) => match expect_type(ts, end, p2, TokenType::LeftParentheses) {
                Parsed::Done(_, p3) => match parameters(ts, end, p3, Seq::empty()) {
                    Parsed::Done(params, p4) => match expect_type(
                        ts,
                        end,
                        p4,
                        TokenType::RightParentheses,
                    ) {
                        Parsed::Done(_, p5) => match maybe_type(ts, end, p5) {
                            Parsed::Done(return_type, p6) => match block(ts, end, p6) {
                                Parsed::Done(body, p7) => Parsed::Done(
                                    SpecStatement::FunctionDefinition(
                                        SpecFunctionDefinition {
                                            name: name.text,
                                            parameters: params,
                                            return_type,
                                            body,
                                        },
                                    ),
                                    p7,
                                ),
                                Parsed::Failed(e) => Parsed::Failed(e),
                                Parsed::Halted => Parsed::Halted,
                            },
                            Parsed::Failed(e) => Parsed::Failed(e),
                            Parsed::Halted => Parsed::Halted,
                        },
                        Parsed::Failed(e) => Parsed::Failed(e),
                        Parsed::Halted => Parsed::Halted,
                    },
                    Parsed::Failed(e) => Parsed::Failed(e),
                    Parsed::Halted => Parsed::Halted,
                },
                Parsed::Failed(e) => Parsed::Failed(e),
                Parsed::Halted => Parsed::Halted,
            },
            Parsed::Failed(e) => Parsed::Failed(e),
            Parsed::Halted => Parsed::Halted,
        },
        Parsed::Failed(e) => Parsed::Failed(e),
        Parsed::Halted => Parsed::Halted,
    }
}

/// The top-level statements from `pos` on, after the statements `items`: only
/// variable declarations and function definitions stand at the top level.
pub open spec fn program(
    ts: Seq<SpecToken>,
    end: Option<SpecLexError>,
    pos: int,
    items: Seq<SpecStatement>,
) -> Parsed<Seq<SpecStatement>>
    decreases ts.len() - pos,
{
    match look(ts, end, pos) {
        Look::Error(e) => Parsed::Failed(SpecParseError::LexError(e)),
        Look::End => Parsed::Done(items, pos),
        Look::Token(t) => {
            let parsed = if t.token_type == TokenType::Var {
                declaration(ts, end, pos)
            } else if t.token_type == TokenType::Fn {
                function_definition(ts, end, pos)
            } else {
                Parsed::Failed(SpecParseError::UnsupportedTopLevelStatement(t.token_type, t.line))
            };
            match parsed {
                Parsed::Done(s, p) => if pos < p <= ts.len() {
                    program(ts, end, p, items.push(s))
                } else {
                    Parsed::Halted
                },
                Parsed::Failed(e) => Parsed::Failed(e),
                Parsed::Halted => Parsed::Halted,
            }
        },
    }
}

} // verus!
