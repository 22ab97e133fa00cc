//! Expressions of the syntax tree.

use vstd::prelude::*;
use vstd::string::StringExecFns;
use crate::ast::statement::{NodeId, NodeIds};
use crate::lexer::token::{token_type_name, Token, TokenType};
use crate::semantic::error::SemanticError;
use crate::semantic::visitor::{expression_accepted, expression_ready, ExpressionVisitor};
use crate::text::{decimal, decimal_text};

verus! {

broadcast use vstd::string::group_string_axioms;

/// Represents errors encountered while parsing tokens into AST expression kinds.
#[derive(Debug, PartialEq)]
pub enum ExpressionError {
    /// Failed to parse a numeric literal string slice into a concrete integer value.
    ///
    /// Stores the invalid string that failed parsing and the line number where it occurred.
    ParseIntError(String, usize),
    /// The parser encountered a token type that cannot be converted into or used as an operator.
    ///
    /// Stores the unsupported `TokenType` and the line number where it occurred.
    UnsupportedOperator(TokenType, usize),
}

/// The mathematical value of an [`ExpressionError`].
pub enum SpecExpressionError {
    ParseIntError(Seq<char>, usize),
    UnsupportedOperator(TokenType, usize),
}

impl View for ExpressionError {
    type V = SpecExpressionError;

    open spec fn view(&self) -> SpecExpressionError {
        match self {
            ExpressionError::ParseIntError(s, line) => SpecExpressionError::ParseIntError(
                s@,
                *line,
            ),
            ExpressionError::UnsupportedOperator(t, line) => SpecExpressionError::UnsupportedOperator(
                *t,
                *line,
            ),
        }
    }
}

/// The message of an expression error, as its `Display` writes it.
pub open spec fn expression_error_message(e: SpecExpressionError) -> Seq<char> {
    match e {
        SpecExpressionError::ParseIntError(s, line) => "failed to parse integer '"@ + s
            + "' on line "@ + decimal(line as nat),
        SpecExpressionError::UnsupportedOperator(t, line) => "unsupported operator '"@
            + token_type_name(t) + "' on line "@ + decimal(line as nat),
    }
}

impl ExpressionError {
    /// The human readable message of this error.
    pub fn to_string(&self) -> (r: String)
        ensures
            r@ == expression_error_message(self@),
    {
        match self {
            ExpressionError::ParseIntError(s, line) => {
                let mut r = String::from_str("failed to parse integer '");
                r.append(s.as_str());
                r.append("' on line ");
                let l = decimal_text(*line);
                r.append(l.as_str());
                r
            },
            ExpressionError::UnsupportedOperator(t, line) => {
                let mut r = String::from_str("unsupported operator '");
                r.append(t.name());
                r.append("' on line ");
                let l = decimal_text(*line);
                r.append(l.as_str());
                r
            },
        }
    }
}

/// The shape of an expression kind: what it is, without the identifiers of its nodes.
pub enum SpecExpressionKind {
    I32(i32),
    String(Seq<char>),
    Boolean(bool),
    Identifier(Seq<char>),
    Unary(Box<SpecExpressionKind>, UnaryOperator),
    Binary(Box<SpecExpressionKind>, BinaryOperator, Box<SpecExpressionKind>),
    Grouped(Box<SpecExpressionKind>),
    FunctionCall(Box<SpecExpressionKind>, Seq<SpecExpressionKind>),
}

/// An expression kind together with the line it was parsed on.
pub struct SpecExpression {
    pub kind: SpecExpressionKind,
    pub line: usize,
}

/// Represents a parsed expression with source location metadata in the AST.
#[derive(Debug)]
pub struct Expression {
    /// The specific variant of this expression.
    pub kind: ExpressionKind,
    /// The line number in the source code where this expression was parsed.
    pub line: usize,
}

/// Represents a parsed expression kind in the AST.
///
/// Expression kinds evaluate to values and can appear on the right-hand side
/// of declarations, in conditions, as function arguments, and more.
#[derive(Debug)]
pub enum ExpressionKind {
    /// A 32-bit signed integer literal (e.g., `42`).
    I32(i32),
    /// A string literal (e.g., `"hello"`).
    String(String),
    /// A boolean literal: `true` or `false`.
    Boolean(bool),
    /// A reference to a named variable or function (e.g., `score`), along with unique identifier.
    Identifier(String, NodeId),
    /// A unary expression applying an operator to a single operand (e.g., `-x`, `!flag`).
    Unary(Box<ExpressionKind>, UnaryOperator),
    /// A binary expression applying an operator to a left and right operand (e.g., `a + b`).
    Binary(Box<ExpressionKind>, BinaryOperator, Box<ExpressionKind>),
    /// A parenthesised expression that controls evaluation order (e.g., `(a + b)`).
    Grouped(Box<ExpressionKind>),
    /// A function call expression with a callee expression and a list of argument expressions, along with unique identifier.
    FunctionCall(Box<ExpressionKind>, Vec<ExpressionKind>, NodeId),
}

/// The shape of an expression kind.
pub open spec fn kind_view(e: ExpressionKind) -> SpecExpressionKind
    decreases e,
{
    match e {
        ExpressionKind::I32(v) => SpecExpressionKind::I32(v),
        ExpressionKind::String(s) => SpecExpressionKind::String(s@),
        ExpressionKind::Boolean(b) => SpecExpressionKind::Boolean(b),
        ExpressionKind::Identifier(name, _) => SpecExpressionKind::Identifier(name@),
        ExpressionKind::Unary(operand, op) => SpecExpressionKind::Unary(
            Box::new(kind_view(*operand)),
            op,
        ),
        ExpressionKind::Binary(left, op, right) => SpecExpressionKind::Binary(
            Box::new(kind_view(*left)),
            op,
            Box::new(kind_view(*right)),
        ),
        ExpressionKind::Grouped(inner) => SpecExpressionKind::Grouped(Box::new(kind_view(*inner))),
        ExpressionKind::FunctionCall(callee, arguments, _) => SpecExpressionKind::FunctionCall(
            Box::new(kind_view(*callee)),
            kinds_view(arguments@),
        ),
    }
}

/// The shapes of a sequence of expression kinds.
pub open spec fn kinds_view(es: Seq<ExpressionKind>) -> Seq<SpecExpressionKind>
    decreases es,
{
    if es.len() == 0 {
        Seq::empty()
    } else {
        kinds_view(es.drop_last()).push(kind_view(es.last()))
    }
}

/// The shapes of a sequence keep its length and its order.
pub proof fn lemma_kinds_view(es: Seq<ExpressionKind>)
    ensures
        kinds_view(es).len() == es.len(),
        forall|i: int| 0 <= i < es.len() ==> #[trigger] kinds_view(es)[i] == kind_view(es[i]),
    decreases es.len(),
{
    if es.len() > 0 {
        lemma_kinds_view(es.drop_last());
    }
}

/// Appending an expression kind appends its shape.
pub proof fn lemma_kinds_view_push(es: Seq<ExpressionKind>, e: ExpressionKind)
    ensures
        kinds_view(es.push(e)) == kinds_view(es).push(kind_view(e)),
{
    assert(es.push(e).drop_last() =~= es);
}

/// Two identifiers of one name are equal, whatever their node identifiers, while the
/// identifiers themselves, and so the nodes, stay told apart.
pub proof fn lemma_identifier_equality_ignores_ids(name: String, first: NodeId, second: NodeId)
    ensures
        kind_view(ExpressionKind::Identifier(name, first)) == kind_view(
            ExpressionKind::Identifier(name, second),
        ),
        first != second ==> ExpressionKind::Identifier(name, first) != ExpressionKind::Identifier(
            name,
            second,
        ),
{
}

impl View for ExpressionKind {
    type V = SpecExpressionKind;

    open spec fn view(&self) -> SpecExpressionKind {
        kind_view(*self)
    }
}

impl View for Expression {
    type V = SpecExpression;

    open spec fn view(&self) -> SpecExpression {
        SpecExpression { kind: self.kind@, line: self.line }
    }
}

/// An expression kind without the parentheses that wrap it.
pub open spec fn strip_groups(k: SpecExpressionKind) -> SpecExpressionKind
    decreases k,
{
    match k {
        SpecExpressionKind::Grouped(inner) => strip_groups(*inner),
        _ => k,
    }
}

/// Whether two expression kinds have the same shape.
fn same_kind(a: &ExpressionKind, b: &ExpressionKind) -> (r: bool)
    ensures
        r == (a@ == b@),
    decreases a,
{
    match (a, b) {
        (ExpressionKind::I32(x), ExpressionKind::I32(y)) => *x == *y,
        (ExpressionKind::String(x), ExpressionKind::String(y)) => *x == *y,
        (ExpressionKind::Boolean(x), ExpressionKind::Boolean(y)) => *x == *y,
        (ExpressionKind::Identifier(x, _), ExpressionKind::Identifier(y, _)) => *x == *y,
        (ExpressionKind::Unary(x, xo), ExpressionKind::Unary(y, yo)) => {
            *xo == *yo && same_kind(x, y)
        },
        (ExpressionKind::Binary(xl, xo, xr), ExpressionKind::Binary(yl, yo, yr)) => {
            *xo == *yo && same_kind(xl, yl) && same_kind(xr, yr)
        },
        (ExpressionKind::Grouped(x), ExpressionKind::Grouped(y)) => same_kind(x, y),
        (ExpressionKind::FunctionCall(xc, xa, _), ExpressionKind::FunctionCall(yc, ya, _)) => {
            same_kind(xc, yc) && same_kinds(xa, ya)
        },
        _ => false,
    }
}

/// Whether two lists of expression kinds have the same shapes, one by one.
fn same_kinds(a: &Vec<ExpressionKind>, b: &Vec<ExpressionKind>) -> (r: bool)
    ensures
        r == (kinds_view(a@) == kinds_view(b@)),
    decreases a,
{
    proof {
        lemma_kinds_view(a@);
        lemma_kinds_view(b@);
    }
    if a.len() != b.len() {
        return false;
    }
    let mut i: usize = 0;
    while i < a.len()
        invariant
            a.len() == b.len(),
            i <= a.len(),
            kinds_view(a@).len() == a.len(),
            kinds_view(b@).len() == b.len(),
            forall|j: int| 0 <= j < a.len() ==> #[trigger] kinds_view(a@)[j] == kind_view(a@[j]),
            forall|j: int| 0 <= j < b.len() ==> #[trigger] kinds_view(b@)[j] == kind_view(b@[j]),
            forall|j: int| 0 <= j < i ==> #[trigger] kinds_view(a@)[j] == kinds_view(b@)[j],
        decreases a.len() - i,
    {
        proof {
            assert(decreases_to!(a => a@[i as int]));
        }
        if !same_kind(&a[i], &b[i]) {
            assert(kinds_view(a@)[i as int] != kinds_view(b@)[i as int]);
            return false;
        }
        i = i + 1;
    }
    assert(kinds_view(a@) =~= kinds_view(b@));
    true
}

impl PartialEq for ExpressionKind {
    fn eq(&self, other: &Self) -> (r: bool) {
        same_kind(self, other)
    }
}

impl vstd::std_specs::cmp::PartialEqSpecImpl for ExpressionKind {
    open spec fn obeys_eq_spec() -> bool {
        true
    }

    open spec fn eq_spec(&self, other: &Self) -> bool {
        self@ == other@
    }
}

impl PartialEq for Expression {
    fn eq(&self, other: &Self) -> (r: bool) {
        same_kind(&self.kind, &other.kind) && self.line == other.line
    }
}

impl vstd::std_specs::cmp::PartialEqSpecImpl for Expression {
    open spec fn obeys_eq_spec() -> bool {
        true
    }

    open spec fn eq_spec(&self, other: &Self) -> bool {
        self@ == other@
    }
}

impl Expression {
    /// Creates a new `Expression` wrapping an `ExpressionKind` and its source line number.
    pub fn new(kind: ExpressionKind, line: usize) -> (r: Self)
        ensures
            r == (Expression { kind, line }),
    {
        Expression { kind, line }
    }

    /// Accepts an expression visitor, delegating the visitor dispatch to the inner `ExpressionKind`.
    pub fn accept<V: ExpressionVisitor>(&self, visitor: &mut V) -> (r: Result<(), SemanticError>)
        requires
            expression_ready(self.kind, *old(visitor)),
        ensures
            expression_accepted(self.kind, *old(visitor), *final(visitor), r),
    {
        self.kind.accept(visitor)
    }
}

impl ExpressionKind {
    /// Recursively unwraps nested `Grouped` expression kinds, returning the innermost non-grouped expression kind.
    pub fn unwrap_grouped(&self) -> (r: &ExpressionKind)
        ensures
            r@ == strip_groups(self@),
            !(r@ is Grouped),
        decreases self,
    {
        match self {
            ExpressionKind::Grouped(inner) => inner.unwrap_grouped(),
            _ => self,
        }
    }

    /// Factory method to construct an `ExpressionKind::Identifier` with a fresh node identifier.
    pub fn identifier(name: String, ids: &mut NodeIds) -> (r: Self)
        requires
            old(ids).last() < usize::MAX,
        ensures
            final(ids).last() == old(ids).last() + 1,
            r == ExpressionKind::Identifier(name, NodeId(final(ids).last())),
    {
        let id = ids.next_id();
        ExpressionKind::Identifier(name, id)
    }

    /// Factory method to construct an `ExpressionKind::FunctionCall` with a fresh node identifier.
    pub fn function_call(
        callee: ExpressionKind,
        arguments: Vec<ExpressionKind>,
        ids: &mut NodeIds,
    ) -> (r: Self)
        requires
            old(ids).last() < usize::MAX,
        ensures
            final(ids).last() == old(ids).last() + 1,
            r == ExpressionKind::FunctionCall(Box::new(callee), arguments, NodeId(final(ids).last())),
    {
        let id = ids.next_id();
        ExpressionKind::FunctionCall(Box::new(callee), arguments, id)
    }

    /// Accepts an expression visitor, dispatching the expression kind to the corresponding `visit_*` method.
    ///
    /// Literals have nothing to visit and are accepted as they are.
    pub fn accept<V: ExpressionVisitor>(&self, visitor: &mut V) -> (r: Result<(), SemanticError>)
        requires
            expression_ready(*self, *old(visitor)),
        ensures
            expression_accepted(*self, *old(visitor), *final(visitor), r),
    {
        match self {
            ExpressionKind::Identifier(name, id) => visitor.visit_identifier(name.as_str(), *id),
            ExpressionKind::FunctionCall(callee, arguments, _) => visitor.visit_function_call(
                callee,
                arguments.as_slice(),
            ),
            ExpressionKind::Unary(operand, operator) => visitor.visit_unary(*operator, operand),
            ExpressionKind::Grouped(inner) => visitor.visit_grouped(inner),
            ExpressionKind::Binary(left, operator, right) => visitor.visit_binary(left, *operator, right),
            _ => Ok(()),
        }
    }

    /// The node identifier of this expression kind, for the kinds that carry one.
    pub fn node_id(&self) -> (r: Option<NodeId>)
        ensures
            r == match self {
                ExpressionKind::Identifier(_, id) => Some(*id),
                ExpressionKind::FunctionCall(_, _, id) => Some(*id),
                _ => None::<NodeId>,
            },
    {
        match self {
            ExpressionKind::Identifier(_, id) => Some(*id),
            ExpressionKind::FunctionCall(_, _, id) => Some(*id),
            _ => None,
        }
    }
}

/// Represents a binary operator used between two expression kinds.
///
/// Arithmetic operators follow standard mathematical precedence:
/// multiplication and division bind tighter than addition and subtraction.
/// Comparison and logical operators bind at a lower level.
#[derive(Debug, Clone, Copy, PartialEq, Eq, Structural)]
pub enum BinaryOperator {
    /// The `+` addition operator.
    Plus,
    /// The `-` subtraction operator.
    Minus,
    /// The `*` multiplication operator.
    Multiply,
    /// The `/` division operator.
    Divide,
    /// The `>` comparison operator.
    GreaterThan,
    /// The `<` comparison operator.
    LessThan,
    /// The `>=` comparison operator.
    GreaterThanEquals,
    /// The `<=` comparison operator.
    LessThanEquals,
    /// The `==` equality operator.
    EqualsEquals,
    /// The `!=` inequality operator.
    NotEquals,
    /// The `and` logical conjunction operator.
    And,
    /// The `or` logical disjunction operator.
    Or,
}

/// The binary operator a token type stands for, if any.
pub open spec fn binary_operator_of(t: TokenType) -> Option<BinaryOperator> {
    match t {
        TokenType::Plus => Some(BinaryOperator::Plus),
        TokenType::Minus => Some(BinaryOperator::Minus),
        TokenType::Star => Some(BinaryOperator::Multiply),
        TokenType::Slash => Some(BinaryOperator::Divide),
        TokenType::GreaterThan => Some(BinaryOperator::GreaterThan),
        TokenType::LessThan => Some(BinaryOperator::LessThan),
        TokenType::GreaterThanEquals => Some(BinaryOperator::GreaterThanEquals),
        TokenType::LessThanEquals => Some(BinaryOperator::LessThanEquals),
        TokenType::EqualsEquals => Some(BinaryOperator::EqualsEquals),
        TokenType::BangEquals => Some(BinaryOperator::NotEquals),
        TokenType::And => Some(BinaryOperator::And),
        TokenType::Or => Some(BinaryOperator::Or),
        _ => None,
    }
}

/// The relational and equality operators.
pub open spec fn is_comparison_operator(op: BinaryOperator) -> bool {
    match op {
        BinaryOperator::GreaterThan | BinaryOperator::GreaterThanEquals | BinaryOperator::LessThan
        | BinaryOperator::LessThanEquals | BinaryOperator::EqualsEquals
        | BinaryOperator::NotEquals => true,
        _ => false,
    }
}

impl BinaryOperator {
    /// Attempts to convert a `Token` reference into a `BinaryOperator`.
    ///
    /// Returns `Err(ExpressionError::UnsupportedOperator)` if the token's type
    /// cannot be mapped to any known binary operator.
    pub fn try_from(token: &Token) -> (r: Result<Self, ExpressionError>)
        ensures
            match binary_operator_of(token.token_type) {
                Some(op) => r == Ok::<BinaryOperator, ExpressionError>(op),
                None => r is Err && r->Err_0@ == SpecExpressionError::UnsupportedOperator(
                    token.token_type,
                    token.line,
                ),
            },
    {
        match token.token_type {
            TokenType::Plus => Ok(BinaryOperator::Plus),
            TokenType::Minus => Ok(BinaryOperator::Minus),
            TokenType::Star => Ok(BinaryOperator::Multiply),
            TokenType::Slash => Ok(BinaryOperator::Divide),
            TokenType::GreaterThan => Ok(BinaryOperator::GreaterThan),
            TokenType::LessThan => Ok(BinaryOperator::LessThan),
            TokenType::GreaterThanEquals => Ok(BinaryOperator::GreaterThanEquals),
            TokenType::LessThanEquals => Ok(BinaryOperator::LessThanEquals),
            TokenType::EqualsEquals => Ok(BinaryOperator::EqualsEquals),
            TokenType::BangEquals => Ok(BinaryOperator::NotEquals),
            TokenType::And => Ok(BinaryOperator::And),
            TokenType::Or => Ok(BinaryOperator::Or),
            _ => Err(ExpressionError::UnsupportedOperator(token.token_type, token.line)),
        }
    }

    /// Returns `true` if this operator is a relational or equality comparison
    /// (`>`, `>=`, `<`, `<=`, `==`, `!=`).
    ///
    /// Used to detect chained comparisons (e.g., `a < b < c`) which are not supported.
    pub fn is_comparison(&self) -> (r: bool)
        ensures
            r == is_comparison_operator(*self),
    {
        match self {
            BinaryOperator::GreaterThan | BinaryOperator::GreaterThanEquals
            | BinaryOperator::LessThan | BinaryOperator::LessThanEquals
            | BinaryOperator::EqualsEquals | BinaryOperator::NotEquals => true,
            _ => false,
        }
    }
}

/// Represents a unary operator applied to a single operand.
#[derive(Debug, Clone, Copy, PartialEq, Eq, Structural)]
pub enum UnaryOperator {
    /// The unary `-` negation operator (e.g., `-10`).
    Minus,
    /// The logical NOT `!` operator (e.g., `!active`).
    Negation,
}

/// The unary operator a token type stands for, if any.
pub open spec fn unary_operator_of(t: TokenType) -> Option<UnaryOperator> {
    match t {
        TokenType::Minus => Some(UnaryOperator::Minus),
        TokenType::Bang => Some(UnaryOperator::Negation),
        _ => None,
    }
}

impl UnaryOperator {
    /// Attempts to convert a `Token` reference into a `UnaryOperator`.
    ///
    /// Returns `Err(ExpressionError::UnsupportedOperator)` if the token's type
    /// cannot be mapped to a known unary operator.
    pub fn try_from(token: &Token) -> (r: Result<Self, ExpressionError>)
        ensures
            match unary_operator_of(token.token_type) {
                Some(op) => r == Ok::<UnaryOperator, ExpressionError>(op),
                None => r is Err && r->Err_0@ == SpecExpressionError::UnsupportedOperator(
                    token.token_type,
                    token.line,
                ),
            },
    {
        match token.token_type {
            TokenType::Minus => Ok(UnaryOperator::Minus),
            TokenType::Bang => Ok(UnaryOperator::Negation),
            _ => Err(ExpressionError::UnsupportedOperator(token.token_type, token.line)),
        }
    }
}

} // verus!
