//! Errors of the parsing phase.

use vstd::prelude::*;
use vstd::string::StringExecFns;
use crate::ast::expr::{expression_error_message, ExpressionError, SpecExpressionError};
use crate::lexer::error::{lex_error_message, LexError, SpecLexError};
use crate::lexer::token::{token_type_name, TokenType};
use crate::text::{decimal, decimal_text};

verus! {

broadcast use vstd::string::group_string_axioms;

/// Represents all syntactic and structural errors encountered during the parsing phase.
#[derive(Debug, PartialEq)]
pub enum ParseError {
    /// Expected a certain token type, but found a different one.
    ///
    /// Stores the expected `TokenType`, the actual `TokenType` found, and the line number where it occurred.
    UnexpectedTokenType(TokenType, TokenType, usize),
    /// The parser reached the end of the input stream unexpectedly while parsing a construct.
    UnexpectedEof,
    /// A scanning error propagated from the lexical analysis phase.
    LexError(LexError),
    /// An error encountered while parsing or validating an individual expression.
    ExpressionError(ExpressionError),
    /// An error encountered while parsing prefix expressions, with unsupported prefix parser.
    UnsupportedPrefixExpression(TokenType, usize),
    /// An error encountered while parsing infix expressions, with unsupported infix parser.
    UnsupportedInfixExpression(TokenType, usize),
    /// An error encountered while parsing chained comparison operations like a < b < c.
    ChainedComparison(usize),
    /// A comma directly before the closing parenthesis of a parameter or argument list.
    TrailingComma(usize),
    /// A statement that may not stand at the top level of a program.
    UnsupportedTopLevelStatement(TokenType, usize),
    /// A statement form, beginning with the token type given, that the parser does
    /// not implement.
    UnimplementedStatement(TokenType, usize),
}

/// The mathematical value of a [`ParseError`].
pub enum SpecParseError {
    UnexpectedTokenType(TokenType, TokenType, usize),
    UnexpectedEof,
    LexError(SpecLexError),
    ExpressionError(SpecExpressionError),
    UnsupportedPrefixExpression(TokenType, usize),
    UnsupportedInfixExpression(TokenType, usize),
    ChainedComparison(usize),
    TrailingComma(usize),
    UnsupportedTopLevelStatement(TokenType, usize),
    UnimplementedStatement(TokenType, usize),
}

impl View for ParseError {
    type V = SpecParseError;

    open spec fn view(&self) -> SpecParseError {
        match self {
            ParseError::UnexpectedTokenType(expected, actual, line) => SpecParseError::UnexpectedTokenType(
                *expected,
                *actual,
                *line,
            ),
            ParseError::UnexpectedEof => SpecParseError::UnexpectedEof,
            ParseError::LexError(e) => SpecParseError::LexError(e@),
            ParseError::ExpressionError(e) => SpecParseError::ExpressionError(e@),
            ParseError::UnsupportedPrefixExpression(t, line) => SpecParseError::UnsupportedPrefixExpression(
                *t,
                *line,
            ),
            ParseError::UnsupportedInfixExpression(t, line) => SpecParseError::UnsupportedInfixExpression(
                *t,
                *line,
            ),
            ParseError::ChainedComparison(line) => SpecParseError::ChainedComparison(*line),
            ParseError::TrailingComma(line) => SpecParseError::TrailingComma(*line),
            ParseError::UnsupportedTopLevelStatement(t, line) => SpecParseError::UnsupportedTopLevelStatement(
                *t,
                *line,
            ),
            ParseError::UnimplementedStatement(t, line) => SpecParseError::UnimplementedStatement(
                *t,
                *line,
            ),
        }
    }
}

/// The message of a parse error, as its `Display` writes it.
pub open spec fn parse_error_message(e: SpecParseError) -> Seq<char> {
    match e {
        SpecParseError::UnexpectedTokenType(expected, actual, line) => "expected token '"@
            + token_type_name(expected) + "', but found '"@ + token_type_name(actual)
            + "' on line "@ + decimal(line as nat),
        SpecParseError::UnexpectedEof => "unexpected end of file"@,
        SpecParseError::LexError(err) => lex_error_message(err),
        SpecParseError::ExpressionError(err) => expression_error_message(err),
        SpecParseError::UnsupportedPrefixExpression(t, line) => "no supported prefix parser for '"@
            + token_type_name(t) + "' on line "@ + decimal(line as nat),
        SpecParseError::UnsupportedInfixExpression(t, line) => "no supported infix parser for '"@
            + token_type_name(t) + "' on line "@ + decimal(line as nat),
        SpecParseError::ChainedComparison(line) => "chained comparison operations are not supported on line "@
            + decimal(line as nat),
        SpecParseError::TrailingComma(line) => "trailing comma is not allowed on line "@ + decimal(
            line as nat,
        ),
        SpecParseError::UnsupportedTopLevelStatement(t, line) => "unsupported token '"@
            + token_type_name(t) + "' at top-level on line "@ + decimal(line as nat),
        SpecParseError::UnimplementedStatement(t, line) => "statement beginning with '"@
            + token_type_name(t) + "' is not implemented, on line "@ + decimal(line as nat),
    }
}

impl ParseError {
    /// The human readable message of this error.
    pub fn to_string(&self) -> (r: String)
        ensures
            r@ == parse_error_message(self@),
    {
        match self {
            ParseError::UnexpectedTokenType(expected, actual, line) => {
                let mut r = String::from_str("expected token '");
                r.append(expected.name());
                r.append("', but found '");
                r.append(actual.name());
                r.append("' on line ");
                let l = decimal_text(*line);
                r.append(l.as_str());
                r
            },
            ParseError::UnexpectedEof => String::from_str("unexpected end of file"),
            ParseError::LexError(err) => err.to_string(),
            ParseError::ExpressionError(err) => err.to_string(),
            ParseError::UnsupportedPrefixExpression(t, line) => {
                let mut r = String::from_str("no supported prefix parser for '");
                r.append(t.name());
                r.append("' on line ");
                let l = decimal_text(*line);
                r.append(l.as_str());
                r
            },
            ParseError::UnsupportedInfixExpression(t, line) => {
                let mut r = String::from_str("no supported infix parser for '");
                r.append(t.name());
                r.append("' on line ");
                let l = decimal_text(*line);
                r.append(l.as_str());
                r
            },
            ParseError::ChainedComparison(line) => {
                let mut r = String::from_str(
                    "chained comparison operations are not supported on line ",
                );
                let l = decimal_text(*line);
                r.append(l.as_str());
                r
            },
            ParseError::TrailingComma(line) => {
                let mut r = String::from_str("trailing comma is not allowed on line ");
                let l = decimal_text(*line);
                r.append(l.as_str());
                r
            },
            ParseError::UnsupportedTopLevelStatement(t, line) => {
                let mut r = String::from_str("unsupported token '");
                r.append(t.name());
                r.append("' at top-level on line ");
                let l = decimal_text(*line);
                r.append(l.as_str());
                r
            },
            ParseError::UnimplementedStatement(t, line) => {
                let mut r = String::from_str("statement beginning with '");
                r.append(t.name());
                r.append("' is not implemented, on line ");
                let l = decimal_text(*line);
                r.append(l.as_str());
                r
            },
        }
    }
}

impl From<LexError> for ParseError {
    fn from(error: LexError) -> (r: Self) {
        ParseError::LexError(error)
    }
}

impl vstd::std_specs::convert::FromSpecImpl<LexError> for ParseError {
    open spec fn obeys_from_spec() -> bool {
        true
    }

    open spec fn from_spec(v: LexError) -> Self {
        ParseError::LexError(v)
    }
}

impl From<ExpressionError> for ParseError {
    fn from(error: ExpressionError) -> (r: Self) {
        ParseError::ExpressionError(error)
    }
}

impl vstd::std_specs::convert::FromSpecImpl<ExpressionError> for ParseError {
    open spec fn obeys_from_spec() -> bool {
        true
    }

    open spec fn from_spec(v: ExpressionError) -> Self {
        ParseError::ExpressionError(v)
    }
}

} // verus!
