//! Binding strength of the operators of the expression grammar.

use vstd::prelude::*;
use crate::lexer::token::TokenType;

verus! {

/// How tightly an operator binds its operands, from `Lowest` (not an operator) up to `Call`.
#[derive(Debug, Clone, Copy, PartialEq, Eq, Structural, PartialOrd)]
pub enum Precedence {
    Lowest,
    // or
    Or,
    // and
    And,
    // ==, !=
    Equality,
    // >, <, >=, <=
    Comparison,
    // + -
    Plus,
    // * /
    Star,
    // ! -
    Unary,
    // f()
    Call,
}

/// The numeric level of a precedence: a higher level binds tighter.
pub open spec fn precedence_level(p: Precedence) -> nat {
    match p {
        Precedence::Lowest => 0,
        Precedence::Or => 10,
        Precedence::And => 20,
        Precedence::Equality => 30,
        Precedence::Comparison => 40,
        Precedence::Plus => 50,
        Precedence::Star => 60,
        Precedence::Unary => 70,
        Precedence::Call => 80,
    }
}

/// The precedence of a token when it stands between two operands.
pub open spec fn precedence_of(token_type: TokenType) -> Precedence {
    match token_type {
        TokenType::LeftParentheses => Precedence::Call,
        TokenType::Plus | TokenType::Minus => Precedence::Plus,
        TokenType::Star | TokenType::Slash => Precedence::Star,
        TokenType::EqualsEquals | TokenType::BangEquals => Precedence::Equality,
        TokenType::GreaterThan | TokenType::GreaterThanEquals | TokenType::LessThan
        | TokenType::LessThanEquals => Precedence::Comparison,
        TokenType::And => Precedence::And,
        TokenType::Or => Precedence::Or,
        _ => Precedence::Lowest,
    }
}

/// The binding strengths are strictly ordered, loosest first: `Lowest`, `or`, `and`,
/// equality (`==`, `!=`), comparison (`>`, `<`, `>=`, `<=`), `+ -`, `* /`, the
/// unary operators, then calls. In particular every arithmetic operator binds tighter
/// than every comparison, every comparison tighter than `and`, and `and` tighter than
/// `or`.
pub proof fn lemma_precedence_order()
    ensures
        precedence_level(Precedence::Lowest) < precedence_level(Precedence::Or),
        precedence_level(Precedence::Or) < precedence_level(Precedence::And),
        precedence_level(Precedence::And) < precedence_level(Precedence::Equality),
        precedence_level(Precedence::Equality) < precedence_level(Precedence::Comparison),
        precedence_level(Precedence::Comparison) < precedence_level(Precedence::Plus),
        precedence_level(Precedence::Plus) < precedence_level(Precedence::Star),
        precedence_level(Precedence::Star) < precedence_level(Precedence::Unary),
        precedence_level(Precedence::Unary) < precedence_level(Precedence::Call),
{
}

/// How the infix tokens bind relative to one another: `or` loosest, then `and`, then
/// `==` and `!=` alike, then `>`, `<`, `>=`, `<=` alike, then `+` and `-` alike, then
/// `*` and `/` alike, and a call tightest; any other token is no infix operator and
/// binds loosest of all.
pub proof fn lemma_operator_binding(a: TokenType, b: TokenType)
    ensures
        a == TokenType::Or && (b == TokenType::And || b == TokenType::EqualsEquals || b
            == TokenType::BangEquals || b == TokenType::GreaterThan || b == TokenType::LessThan || b
            == TokenType::GreaterThanEquals || b == TokenType::LessThanEquals || b == TokenType::Plus
            || b == TokenType::Minus || b == TokenType::Star || b == TokenType::Slash || b
            == TokenType::LeftParentheses) ==> precedence_level(precedence_of(a)) < precedence_level(
            precedence_of(b),
        ),
        a == TokenType::And && (b == TokenType::EqualsEquals || b == TokenType::BangEquals || b
            == TokenType::GreaterThan || b == TokenType::LessThan || b == TokenType::GreaterThanEquals
            || b == TokenType::LessThanEquals || b == TokenType::Plus || b == TokenType::Minus || b
            == TokenType::Star || b == TokenType::Slash || b == TokenType::LeftParentheses)
            ==> precedence_level(precedence_of(a)) < precedence_level(precedence_of(b)),
        (a == TokenType::EqualsEquals || a == TokenType::BangEquals) && (b == TokenType::GreaterThan
            || b == TokenType::LessThan || b == TokenType::GreaterThanEquals || b
            == TokenType::LessThanEquals || b == TokenType::Plus || b == TokenType::Minus || b
            == TokenType::Star || b == TokenType::Slash || b == TokenType::LeftParentheses)
            ==> precedence_level(precedence_of(a)) < precedence_level(precedence_of(b)),
        (a == TokenType::GreaterThan || a == TokenType::LessThan || a == TokenType::GreaterThanEquals
            || a == TokenType::LessThanEquals) && (b == TokenType::Plus || b == TokenType::Minus || b
            == TokenType::Star || b == TokenType::Slash || b == TokenType::LeftParentheses)
            ==> precedence_level(precedence_of(a)) < precedence_level(precedence_of(b)),
        (a == TokenType::Plus || a == TokenType::Minus) && (b == TokenType::Star || b
            == TokenType::Slash || b == TokenType::LeftParentheses) ==> precedence_level(
            precedence_of(a),
        ) < precedence_level(precedence_of(b)),
        (a == TokenType::Star || a == TokenType::Slash) && b == TokenType::LeftParentheses
            ==> precedence_level(precedence_of(a)) < precedence_level(precedence_of(b)),
        precedence_of(a) == precedence_of(b) ==> precedence_level(precedence_of(a))
            == precedence_level(precedence_of(b)),
        precedence_level(Precedence::Lowest) <= precedence_level(precedence_of(a)),
        precedence_level(precedence_of(a)) == precedence_level(Precedence::Lowest) ==> precedence_of(
            a,
        ) == Precedence::Lowest,
{
    lemma_precedence_order();
}

impl Precedence {
    /// The precedence of `token_type` as an infix operator; `Lowest` for any other token.
    pub fn of(token_type: TokenType) -> (r: Precedence)
        ensures
            r == precedence_of(token_type),
    {
        match token_type {
            TokenType::LeftParentheses => Precedence::Call,
            TokenType::Plus | TokenType::Minus => Precedence::Plus,
            TokenType::Star | TokenType::Slash => Precedence::Star,
            TokenType::EqualsEquals | TokenType::BangEquals => Precedence::Equality,
            TokenType::GreaterThan | TokenType::GreaterThanEquals | TokenType::LessThan
            | TokenType::LessThanEquals => Precedence::Comparison,
            TokenType::And => Precedence::And,
            TokenType::Or => Precedence::Or,
            _ => Precedence::Lowest,
        }
    }

    /// The numeric level of this precedence.
    pub fn level(&self) -> (r: u8)
        ensures
            r == precedence_level(*self),
    {
        match self {
            Precedence::Lowest => 0,
            Precedence::Or => 10,
            Precedence::And => 20,
            Precedence::Equality => 30,
            Precedence::Comparison => 40,
            Precedence::Plus => 50,
            Precedence::Star => 60,
            Precedence::Unary => 70,
            Precedence::Call => 80,
        }
    }

    /// Whether `other` binds tighter than this precedence.
    pub fn is_lower_than(&self, other: Precedence) -> (r: bool)
        ensures
            r == (precedence_level(*self) < precedence_level(other)),
    {
        self.level() < other.level()
    }
}

} // verus!
