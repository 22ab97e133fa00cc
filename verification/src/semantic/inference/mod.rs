//! Type inference.
//!
//! Monomorphic constraint-based type inference: the syntax tree yields type
//! equations (constraints), which unification solves.

pub mod constraints;
pub mod generation;
pub mod type_inference;
pub mod type_table;
pub mod unifier;

use vstd::prelude::*;
use vstd::string::StringExecFns;
use crate::ast::expr::{is_comparison_operator, BinaryOperator, UnaryOperator};
use crate::semantic::error::{SemanticError, SpecSemanticError};
use crate::text::{decimal, decimal_text, str_eq};

verus! {

broadcast use vstd::string::group_string_axioms;

/// Represents a semantic type in the target language.
#[derive(Debug, Copy, Clone, PartialEq, Eq, Structural)]
pub enum Type {
    /// 32-bit signed integer.
    Int32,
    /// Boolean flag (`true` or `false`).
    Bool,
    /// UTF-8 string literal.
    String,
    /// A unique type placeholder/variable used during inference.
    Placeholder(usize),
}

/// The type a type annotation names, if any.
pub open spec fn annotated_type(name: Seq<char>) -> Option<Type> {
    if name == seq!['i', '3', '2'] {
        Some(Type::Int32)
    } else if name == seq!['b', 'o', 'o', 'l'] {
        Some(Type::Bool)
    } else if name == seq!['s', 't', 'r', 'i', 'n', 'g'] {
        Some(Type::String)
    } else {
        None
    }
}

/// The text of a type, as its `Debug` formatting writes it.
pub open spec fn type_text(t: Type) -> Seq<char> {
    match t {
        Type::Int32 => "Int32"@,
        Type::Bool => "Bool"@,
        Type::String => "String"@,
        Type::Placeholder(id) => "Placeholder("@ + decimal(id as nat) + ")"@,
    }
}

impl Type {
    /// The type named by a type annotation (`"i32"`, `"bool"` or `"string"`).
    ///
    /// Returns `SemanticError::UnsupportedTypeError` if the name is unrecognized.
    pub fn try_from(value: &str) -> (r: Result<Type, SemanticError>)
        ensures
            match annotated_type(value@) {
                Some(t) => r == Ok::<Type, SemanticError>(t),
                None => r is Err && r->Err_0@ == SpecSemanticError::UnsupportedTypeError(value@),
            },
    {
        proof {
            reveal_strlit("i32");
            reveal_strlit("bool");
            reveal_strlit("string");
            assert("i32"@ =~= seq!['i', '3', '2']);
            assert("bool"@ =~= seq!['b', 'o', 'o', 'l']);
            assert("string"@ =~= seq!['s', 't', 'r', 'i', 'n', 'g']);
        }
        if str_eq(value, "i32") {
            Ok(Type::Int32)
        } else if str_eq(value, "bool") {
            Ok(Type::Bool)
        } else if str_eq(value, "string") {
            Ok(Type::String)
        } else {
            Err(SemanticError::UnsupportedTypeError(value.to_owned()))
        }
    }

    /// The identifier of a placeholder type.
    pub fn placeholder_type_id(&self) -> (r: usize)
        requires
            self is Placeholder,
        ensures
            r == self->Placeholder_0,
    {
        match self {
            Type::Placeholder(type_id) => *type_id,
            _ => 0,
        }
    }

    /// The text of this type, as its `Debug` formatting writes it.
    pub fn to_text(&self) -> (r: String)
        ensures
            r@ == type_text(*self),
    {
        match self {
            Type::Int32 => String::from_str("Int32"),
            Type::Bool => String::from_str("Bool"),
            Type::String => String::from_str("String"),
            Type::Placeholder(id) => {
                let mut r = String::from_str("Placeholder(");
                let digits = decimal_text(*id);
                r.append(digits.as_str());
                r.append(")");
                r
            },
        }
    }
}

/// The source of fresh placeholder types of one inference: each one it issues has an
/// identifier one more than the one before, starting from 1.
pub struct TypeIds {
    last: usize,
}

impl TypeIds {
    /// The identifier of the last placeholder issued, 0 before the first.
    pub closed spec fn last(&self) -> usize {
        self.last
    }

    /// A source that has issued no placeholder yet.
    pub fn new() -> (r: Self)
        ensures
            r.last() == 0,
    {
        TypeIds { last: 0 }
    }

    /// Issues a fresh placeholder type.
    pub fn next_type(&mut self) -> (r: Type)
        requires
            old(self).last() < usize::MAX,
        ensures
            final(self).last() == old(self).last() + 1,
            r == Type::Placeholder(final(self).last()),
    {
        self.last = self.last + 1;
        Type::Placeholder(self.last)
    }
}

/// The operand types and the result type of a binary operator.
pub open spec fn binary_signature(operator: BinaryOperator) -> (Type, Type, Type) {
    match operator {
        BinaryOperator::Plus | BinaryOperator::Minus | BinaryOperator::Multiply
        | BinaryOperator::Divide => (Type::Int32, Type::Int32, Type::Int32),
        BinaryOperator::GreaterThan | BinaryOperator::LessThan | BinaryOperator::GreaterThanEquals
        | BinaryOperator::LessThanEquals | BinaryOperator::EqualsEquals
        | BinaryOperator::NotEquals => (Type::Int32, Type::Int32, Type::Bool),
        BinaryOperator::And | BinaryOperator::Or => (Type::Bool, Type::Bool, Type::Bool),
    }
}

/// The typing rules of the binary operators: a comparison (`>`, `<`, `>=`, `<=`, `==`,
/// `!=`) takes two integers and gives a boolean; `and` and `or` take two booleans and
/// give a boolean; an operator gives an integer exactly when it is arithmetic (`+`,
/// `-`, `*`, `/`), and then it takes two integers. Both operands always have the
/// same type.
pub proof fn lemma_binary_operator_types(operator: BinaryOperator)
    ensures
        is_comparison_operator(operator) ==> binary_signature(operator) == (
            Type::Int32,
            Type::Int32,
            Type::Bool,
        ),
        (operator is And || operator is Or) ==> binary_signature(operator) == (
            Type::Bool,
            Type::Bool,
            Type::Bool,
        ),
        binary_signature(operator).2 == Type::Int32 <==> (operator is Plus || operator is Minus
            || operator is Multiply || operator is Divide),
        binary_signature(operator).2 == Type::Int32 ==> binary_signature(operator).0 == Type::Int32,
        binary_signature(operator).2 == Type::Bool <==> (is_comparison_operator(operator)
            || operator is And || operator is Or),
        binary_signature(operator).0 == binary_signature(operator).1,
{
}

/// The typing rules of the unary operators: negation `-` takes and gives an integer,
/// `!` takes and gives a boolean.
pub proof fn lemma_unary_operator_types(operator: UnaryOperator)
    ensures
        operator is Minus ==> unary_signature(operator) == (Type::Int32, Type::Int32),
        operator is Negation ==> unary_signature(operator) == (Type::Bool, Type::Bool),
{
}

/// Represents the expected input and output types for a binary operator.
pub struct BinaryOperatorSignature {
    pub left: Type,
    pub right: Type,
    pub result: Type,
}

impl BinaryOperatorSignature {
    /// Returns the type signature of the given binary operator.
    pub fn of(operator: &BinaryOperator) -> (r: Self)
        ensures
            (r.left, r.right, r.result) == binary_signature(*operator),
    {
        let (left, right, result) = match operator {
            BinaryOperator::Plus | BinaryOperator::Minus | BinaryOperator::Multiply
            | BinaryOperator::Divide => (Type::Int32, Type::Int32, Type::Int32),
            BinaryOperator::GreaterThan | BinaryOperator::LessThan
            | BinaryOperator::GreaterThanEquals | BinaryOperator::LessThanEquals
            | BinaryOperator::EqualsEquals | BinaryOperator::NotEquals => (
                Type::Int32,
                Type::Int32,
                Type::Bool,
            ),
            BinaryOperator::And | BinaryOperator::Or => (Type::Bool, Type::Bool, Type::Bool),
        };
        Self { left, right, result }
    }
}

/// The operand type and the result type of a unary operator.
pub open spec fn unary_signature(operator: UnaryOperator) -> (Type, Type) {
    match operator {
        UnaryOperator::Minus => (Type::Int32, Type::Int32),
        UnaryOperator::Negation => (Type::Bool, Type::Bool),
    }
}

/// Represents the expected input and output types for a unary operator.
pub struct UnaryOperatorSignature {
    pub operand: Type,
    pub result: Type,
}

impl UnaryOperatorSignature {
    /// Returns the type signature of the given unary operator.
    pub fn of(operator: &UnaryOperator) -> (r: Self)
        ensures
            (r.operand, r.result) == unary_signature(*operator),
    {
        let (operand, result) = match operator {
            UnaryOperator::Minus => (Type::Int32, Type::Int32),
            UnaryOperator::Negation => (Type::Bool, Type::Bool),
        };
        Self { operand, result }
    }
}

} // verus!
