//! Errors of semantic analysis.

use vstd::prelude::*;
use vstd::string::StringExecFns;
use crate::semantic::inference::{type_text, Type};
use crate::text::{decimal, decimal_text};

verus! {

broadcast use vstd::string::group_string_axioms;

/// Represents various semantic and scope errors caught during AST validation.
#[derive(Debug, PartialEq)]
pub enum SemanticError {
    /// A variable was declared multiple times in the same scope.
    DuplicateVariable(String),
    /// An identifier was referenced but is not declared in the current scope stack.
    UndefinedVariable(String),
    /// A function was defined multiple times in the same global/lexical scope.
    DuplicateFunctionName(String),
    /// A return statement was placed outside a function body.
    ReturnOutsideFunction,
    /// A return statement in a typed function is missing an expression value.
    MissingReturnExpression,
    /// A return statement in a void function has an unexpected expression value.
    UnexpectedReturnExpression,
    /// A break control flow statement was placed outside a loop construct.
    BreakOutsideLoop,
    /// Statements were detected after a break or return statement.
    UnreachableCode,
    /// A callee was called as a function but it is actually a non-callable variable.
    NotAFunction(String),
    /// A function call has an incorrect number of arguments.
    ArgumentCountMismatch(String, usize, usize),
    /// A type annotation names no type of the language.
    UnsupportedTypeError(String),
    /// Two types that must be equal cannot be unified.
    TypeMismatch(Type, Type),
}

/// The mathematical value of a [`SemanticError`]: names are character sequences.
pub enum SpecSemanticError {
    DuplicateVariable(Seq<char>),
    UndefinedVariable(Seq<char>),
    DuplicateFunctionName(Seq<char>),
    ReturnOutsideFunction,
    MissingReturnExpression,
    UnexpectedReturnExpression,
    BreakOutsideLoop,
    UnreachableCode,
    NotAFunction(Seq<char>),
    ArgumentCountMismatch(Seq<char>, usize, usize),
    UnsupportedTypeError(Seq<char>),
    TypeMismatch(Type, Type),
}

impl View for SemanticError {
    type V = SpecSemanticError;

    open spec fn view(&self) -> SpecSemanticError {
        match self {
            SemanticError::DuplicateVariable(n) => SpecSemanticError::DuplicateVariable(n@),
            SemanticError::UndefinedVariable(n) => SpecSemanticError::UndefinedVariable(n@),
            SemanticError::DuplicateFunctionName(n) => SpecSemanticError::DuplicateFunctionName(n@),
            SemanticError::ReturnOutsideFunction => SpecSemanticError::ReturnOutsideFunction,
            SemanticError::MissingReturnExpression => SpecSemanticError::MissingReturnExpression,
            SemanticError::UnexpectedReturnExpression => SpecSemanticError::UnexpectedReturnExpression,
            SemanticError::BreakOutsideLoop => SpecSemanticError::BreakOutsideLoop,
            SemanticError::UnreachableCode => SpecSemanticError::UnreachableCode,
            SemanticError::NotAFunction(n) => SpecSemanticError::NotAFunction(n@),
            SemanticError::ArgumentCountMismatch(n, e, a) => SpecSemanticError::ArgumentCountMismatch(
                n@,
                *e,
                *a,
            ),
            SemanticError::UnsupportedTypeError(n) => SpecSemanticError::UnsupportedTypeError(n@),
            SemanticError::TypeMismatch(l, r) => SpecSemanticError::TypeMismatch(*l, *r),
        }
    }
}

/// The message of a semantic error, as its `Display` writes it.
pub open spec fn semantic_error_message(e: SpecSemanticError) -> Seq<char> {
    match e {
        SpecSemanticError::DuplicateVariable(v) => "duplicate variable declaration: "@ + v,
        SpecSemanticError::DuplicateFunctionName(n) => "duplicate function name: "@ + n,
        SpecSemanticError::UndefinedVariable(v) => "undefined variable: "@ + v,
        SpecSemanticError::ReturnOutsideFunction => "return statement outside of any function"@,
        SpecSemanticError::MissingReturnExpression => "empty return statement in a function with a return type"@,
        SpecSemanticError::UnexpectedReturnExpression => "return statement with a value in a function with no return type"@,
        SpecSemanticError::BreakOutsideLoop => "break statement outside of any loop"@,
        SpecSemanticError::UnreachableCode => "unreachable code"@,
        SpecSemanticError::NotAFunction(n) => "not a function: "@ + n,
        SpecSemanticError::ArgumentCountMismatch(n, expected, actual) => "arity mismatch for function "@
            + n + ": expected "@ + decimal(expected as nat) + ", got "@ + decimal(actual as nat),
        SpecSemanticError::UnsupportedTypeError(n) => "unsupported type: "@ + n,
        SpecSemanticError::TypeMismatch(l, r) => "type mismatch: "@ + type_text(l) + " and "@
            + type_text(r),
    }
}

impl SemanticError {
    /// The human readable message of this error.
    pub fn to_string(&self) -> (r: String)
        ensures
            r@ == semantic_error_message(self@),
    {
        match self {
            SemanticError::DuplicateVariable(v) => {
                let mut r = String::from_str("duplicate variable declaration: ");
                r.append(v.as_str());
                r
            },
            SemanticError::DuplicateFunctionName(n) => {
                let mut r = String::from_str("duplicate function name: ");
                r.append(n.as_str());
                r
            },
            SemanticError::UndefinedVariable(v) => {
                let mut r = String::from_str("undefined variable: ");
                r.append(v.as_str());
                r
            },
            SemanticError::ReturnOutsideFunction => String::from_str(
                "return statement outside of any function",
            ),
            SemanticError::MissingReturnExpression => String::from_str(
                "empty return statement in a function with a return type",
            ),
            SemanticError::UnexpectedReturnExpression => String::from_str(
                "return statement with a value in a function with no return type",
            ),
            SemanticError::BreakOutsideLoop => String::from_str(
                "break statement outside of any loop",
            ),
            SemanticError::UnreachableCode => String::from_str("unreachable code"),
            SemanticError::NotAFunction(n) => {
                let mut r = String::from_str("not a function: ");
                r.append(n.as_str());
                r
            },
            SemanticError::ArgumentCountMismatch(n, expected, actual) => {
                let mut r = String::from_str("arity mismatch for function ");
                r.append(n.as_str());
                r.append(": expected ");
                let e = decimal_text(*expected);
                r.append(e.as_str());
                r.append(", got ");
                let a = decimal_text(*actual);
                r.append(a.as_str());
                r
            },
            SemanticError::UnsupportedTypeError(n) => {
                let mut r = String::from_str("unsupported type: ");
                r.append(n.as_str());
                r
            },
            SemanticError::TypeMismatch(left, right) => {
                let mut r = String::from_str("type mismatch: ");
                let l = left.to_text();
                r.append(l.as_str());
                r.append(" and ");
                let t = right.to_text();
                r.append(t.as_str());
                r
            },
        }
    }
}

} // verus!
