//! Errors of the lexical analysis phase.

use vstd::prelude::*;
use vstd::string::StringExecFns;
use crate::text::{char_text, decimal, decimal_text};

verus! {

/// Represents errors that can occur during the lexical analysis (tokenization) phase.
#[derive(Debug, PartialEq, Clone)]
pub enum LexError {
    /// Encountered a character that does not match any valid token.
    UnrecognizedChar(char, usize),
    /// A string literal was opened but not closed before the end of the source.
    UnterminatedStringLiteral(String, usize),
    /// Encountered an identifier matching a keyword format but which is currently unsupported.
    UnsupportedKeyword(String, usize),
}

/// The mathematical value of a [`LexError`]: texts are character sequences.
pub enum SpecLexError {
    UnrecognizedChar(char, usize),
    UnterminatedStringLiteral(Seq<char>, usize),
    UnsupportedKeyword(Seq<char>, usize),
}

impl View for LexError {
    type V = SpecLexError;

    open spec fn view(&self) -> SpecLexError {
        match self {
            LexError::UnrecognizedChar(c, line) => SpecLexError::UnrecognizedChar(*c, *line),
            LexError::UnterminatedStringLiteral(s, line) => SpecLexError::UnterminatedStringLiteral(
                s@,
                *line,
            ),
            LexError::UnsupportedKeyword(k, line) => SpecLexError::UnsupportedKeyword(k@, *line),
        }
    }
}

/// The message of a lexical error, as its `Display` writes it.
pub open spec fn lex_error_message(e: SpecLexError) -> Seq<char> {
    match e {
        SpecLexError::UnrecognizedChar(c, line) => "unrecognized character '"@ + seq![c]
            + "' on line "@ + decimal(line as nat),
        SpecLexError::UnterminatedStringLiteral(s, line) => "unterminated string literal starting with '"@
            + s + "' on line "@ + decimal(line as nat),
        SpecLexError::UnsupportedKeyword(k, line) => "unsupported keyword '"@ + k
            + "' on line "@ + decimal(line as nat),
    }
}

impl LexError {
    /// A copy of this error.
    pub fn duplicate(&self) -> (r: LexError)
        ensures
            r@ == self@,
    {
        match self {
            LexError::UnrecognizedChar(c, line) => LexError::UnrecognizedChar(*c, *line),
            LexError::UnterminatedStringLiteral(s, line) => LexError::UnterminatedStringLiteral(
                s.clone(),
                *line,
            ),
            LexError::UnsupportedKeyword(k, line) => LexError::UnsupportedKeyword(k.clone(), *line),
        }
    }

    /// The human readable message of this error.
    pub fn to_string(&self) -> (r: String)
        ensures
            r@ == lex_error_message(self@),
    {
        match self {
            LexError::UnrecognizedChar(c, line) => {
                let mut r = String::from_str("unrecognized character '");
                let c_text = char_text(*c);
                r.append(c_text.as_str());
                r.append("' on line ");
                let line_text = decimal_text(*line);
                r.append(line_text.as_str());
                r
            },
            LexError::UnterminatedStringLiteral(s, line) => {
                let mut r = String::from_str("unterminated string literal starting with '");
                r.append(s.as_str());
                r.append("' on line ");
                let line_text = decimal_text(*line);
                r.append(line_text.as_str());
                r
            },
            LexError::UnsupportedKeyword(k, line) => {
                let mut r = String::from_str("unsupported keyword '");
                r.append(k.as_str());
                r.append("' on line ");
                let line_text = decimal_text(*line);
                r.append(line_text.as_str());
                r
            },
        }
    }
}

} // verus!
