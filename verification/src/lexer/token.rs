//! Tokens: the syntactic categories of the language and the scanned lexemes.

use vstd::prelude::*;
use vstd::string::StringSliceAdditionalSpecFns;
use vstd::string::StringExecFns;
use vstd::string::StrSliceExecFns;
use vstd::utf8::*;
use std::ops::Range;
use crate::lexer::error::{LexError, SpecLexError};
use crate::text::{str_eq, str_slice, lemma_str_chars};

verus! {

broadcast use vstd::string::group_string_axioms;

/// The catalog of different syntactic categories (token types) supported by the language.
#[derive(Debug, PartialEq, Eq, Clone, Copy, Structural)]
pub enum TokenType {
    /// The `=` assignment operator.
    Equals,
    /// The `;` statement terminator.
    Semicolon,
    /// The `:` type annotation separator.
    Colon,
    /// The `,` comma parameter/argument separator.
    Comma,
    /// A user-defined identifier (e.g. variable names or type names).
    Identifier,
    /// The `var` structural keyword.
    Var,
    /// A numeric integer literal.
    WholeNumber,
    /// A double-quoted string literal.
    StringLiteral,
    /// The boolean literal, true/false.
    BooleanLiteral(bool),
    /// The `+` operator.
    Plus,
    /// The `-` operator.
    Minus,
    /// The `*` operator.
    Star,
    /// The `/` operator.
    Slash,
    /// The `!` logical NOT operator.
    Bang,
    /// The `(` opening parentheses.
    LeftParentheses,
    /// The `)` closing parentheses.
    RightParentheses,
    /// The `{` opening curly brace.
    LeftBrace,
    /// The `}` closing curly brace.
    RightBrace,
    /// The `>` comparison operator.
    GreaterThan,
    /// The `<` comparison operator.
    LessThan,
    /// The `>=` comparison operator.
    GreaterThanEquals,
    /// The `<=` comparison operator.
    LessThanEquals,
    /// The `==` comparison operator.
    EqualsEquals,
    /// The `!=` comparison operator.
    BangEquals,
    /// The `if` conditional keyword.
    If,
    /// The `else` conditional keyword.
    Else,
    /// The `loop` iteration keyword.
    Loop,
    /// The `break` control flow keyword.
    Break,
    /// The `fn` function keyword.
    Fn,
    /// The `and` keyword.
    And,
    /// The `or` keyword.
    Or,
    /// The `return` control flow keyword.
    Return,
}

/// The reserved words of the language, each with the token type it scans to.
pub open spec fn keyword_token_type(word: Seq<char>) -> Option<TokenType> {
    if word == seq!['v', 'a', 'r'] {
        Some(TokenType::Var)
    } else if word == seq!['t', 'r', 'u', 'e'] {
        Some(TokenType::BooleanLiteral(true))
    } else if word == seq!['f', 'a', 'l', 's', 'e'] {
        Some(TokenType::BooleanLiteral(false))
    } else if word == seq!['i', 'f'] {
        Some(TokenType::If)
    } else if word == seq!['e', 'l', 's', 'e'] {
        Some(TokenType::Else)
    } else if word == seq!['l', 'o', 'o', 'p'] {
        Some(TokenType::Loop)
    } else if word == seq!['b', 'r', 'e', 'a', 'k'] {
        Some(TokenType::Break)
    } else if word == seq!['f', 'n'] {
        Some(TokenType::Fn)
    } else if word == seq!['a', 'n', 'd'] {
        Some(TokenType::And)
    } else if word == seq!['o', 'r'] {
        Some(TokenType::Or)
    } else if word == seq!['r', 'e', 't', 'u', 'r', 'n'] {
        Some(TokenType::Return)
    } else {
        None
    }
}

/// The name of a token type, as its `Debug` formatting writes it.
pub open spec fn token_type_name(t: TokenType) -> Seq<char> {
    match t {
        TokenType::Equals => "Equals"@,
        TokenType::Semicolon => "Semicolon"@,
        TokenType::Colon => "Colon"@,
        TokenType::Comma => "Comma"@,
        TokenType::Identifier => "Identifier"@,
        TokenType::Var => "Var"@,
        TokenType::WholeNumber => "WholeNumber"@,
        TokenType::StringLiteral => "StringLiteral"@,
        TokenType::BooleanLiteral(b) => if b {
            "BooleanLiteral(true)"@
        } else {
            "BooleanLiteral(false)"@
        },
        TokenType::Plus => "Plus"@,
        TokenType::Minus => "Minus"@,
        TokenType::Star => "Star"@,
        TokenType::Slash => "Slash"@,
        TokenType::Bang => "Bang"@,
        TokenType::LeftParentheses => "LeftParentheses"@,
        TokenType::RightParentheses => "RightParentheses"@,
        TokenType::LeftBrace => "LeftBrace"@,
        TokenType::RightBrace => "RightBrace"@,
        TokenType::GreaterThan => "GreaterThan"@,
        TokenType::LessThan => "LessThan"@,
        TokenType::GreaterThanEquals => "GreaterThanEquals"@,
        TokenType::LessThanEquals => "LessThanEquals"@,
        TokenType::EqualsEquals => "EqualsEquals"@,
        TokenType::BangEquals => "BangEquals"@,
        TokenType::If => "If"@,
        TokenType::Else => "Else"@,
        TokenType::Loop => "Loop"@,
        TokenType::Break => "Break"@,
        TokenType::Fn => "Fn"@,
        TokenType::And => "And"@,
        TokenType::Or => "Or"@,
        TokenType::Return => "Return"@,
    }
}

impl TokenType {
    /// Maps a string slice lexeme to its corresponding reserved keyword `TokenType`.
    /// Returns `LexError::UnsupportedKeyword` if the slice is not a recognized keyword.
    pub fn keyword_type(token: &str, line: usize) -> (r: Result<TokenType, LexError>)
        ensures
            match keyword_token_type(token@) {
                Some(t) => r == Ok::<TokenType, LexError>(t),
                None => r is Err && r->Err_0@ == SpecLexError::UnsupportedKeyword(token@, line),
            },
    {
        proof {
            reveal_strlit("var");
            reveal_strlit("true");
            reveal_strlit("false");
            reveal_strlit("if");
            reveal_strlit("else");
            reveal_strlit("loop");
            reveal_strlit("break");
            reveal_strlit("fn");
            reveal_strlit("and");
            reveal_strlit("or");
            reveal_strlit("return");
            assert("var"@ =~= seq!['v', 'a', 'r']);
            assert("true"@ =~= seq!['t', 'r', 'u', 'e']);
            assert("false"@ =~= seq!['f', 'a', 'l', 's', 'e']);
            assert("if"@ =~= seq!['i', 'f']);
            assert("else"@ =~= seq!['e', 'l', 's', 'e']);
            assert("loop"@ =~= seq!['l', 'o', 'o', 'p']);
            assert("break"@ =~= seq!['b', 'r', 'e', 'a', 'k']);
            assert("fn"@ =~= seq!['f', 'n']);
            assert("and"@ =~= seq!['a', 'n', 'd']);
            assert("or"@ =~= seq!['o', 'r']);
            assert("return"@ =~= seq!['r', 'e', 't', 'u', 'r', 'n']);
        }
        if str_eq(token, "var") {
            Ok(TokenType::Var)
        } else if str_eq(token, "true") {
            Ok(TokenType::BooleanLiteral(true))
        } else if str_eq(token, "false") {
            Ok(TokenType::BooleanLiteral(false))
        } else if str_eq(token, "if") {
            Ok(TokenType::If)
        } else if str_eq(token, "else") {
            Ok(TokenType::Else)
        } else if str_eq(token, "loop") {
            Ok(TokenType::Loop)
        } else if str_eq(token, "break") {
            Ok(TokenType::Break)
        } else if str_eq(token, "fn") {
            Ok(TokenType::Fn)
        } else if str_eq(token, "and") {
            Ok(TokenType::And)
        } else if str_eq(token, "or") {
            Ok(TokenType::Or)
        } else if str_eq(token, "return") {
            Ok(TokenType::Return)
        } else {
            Err(LexError::UnsupportedKeyword(token.to_owned(), line))
        }
    }

    /// The name of this token type, as its `Debug` formatting writes it.
    pub fn name(&self) -> (r: &'static str)
        ensures
            r@ == token_type_name(*self),
    {
        match self {
            TokenType::Equals => "Equals",
            TokenType::Semicolon => "Semicolon",
            TokenType::Colon => "Colon",
            TokenType::Comma => "Comma",
            TokenType::Identifier => "Identifier",
            TokenType::Var => "Var",
            TokenType::WholeNumber => "WholeNumber",
            TokenType::StringLiteral => "StringLiteral",
            TokenType::BooleanLiteral(b) => if *b {
                "BooleanLiteral(true)"
            } else {
                "BooleanLiteral(false)"
            },
            TokenType::Plus => "Plus",
            TokenType::Minus => "Minus",
            TokenType::Star => "Star",
            TokenType::Slash => "Slash",
            TokenType::Bang => "Bang",
            TokenType::LeftParentheses => "LeftParentheses",
            TokenType::RightParentheses => "RightParentheses",
            TokenType::LeftBrace => "LeftBrace",
            TokenType::RightBrace => "RightBrace",
            TokenType::GreaterThan => "GreaterThan",
            TokenType::LessThan => "LessThan",
            TokenType::GreaterThanEquals => "GreaterThanEquals",
            TokenType::LessThanEquals => "LessThanEquals",
            TokenType::EqualsEquals => "EqualsEquals",
            TokenType::BangEquals => "BangEquals",
            TokenType::If => "If",
            TokenType::Else => "Else",
            TokenType::Loop => "Loop",
            TokenType::Break => "Break",
            TokenType::Fn => "Fn",
            TokenType::And => "And",
            TokenType::Or => "Or",
            TokenType::Return => "Return",
        }
    }
}

/// What the parser sees of a token: its type, its line and its text.
pub struct SpecToken {
    pub token_type: TokenType,
    pub line: usize,
    pub text: Seq<char>,
}

/// Represents a single lexical token scanned from the source code.
///
/// A `Token` keeps track of its type, its byte range in the original source,
/// the line number it was found on, and holds a reference to the source itself.
#[derive(Debug, PartialEq)]
pub struct Token<'src> {
    /// The syntactic category of this token.
    pub token_type: TokenType,
    /// The byte range span of this token in the source code.
    pub range: Range<usize>,
    /// The 1-based line number where this token is located.
    pub line: usize,
    /// A reference to the original source code slice.
    pub source: &'src str,
}

/// A token of `token_type` spanning `start..start + width` of `source` on `line`.
pub open spec fn spec_token<'src>(
    token_type: TokenType,
    source: &'src str,
    start: int,
    width: int,
    line: usize,
) -> Token<'src> {
    Token {
        token_type,
        range: Range { start: start as usize, end: (start + width) as usize },
        line,
        source,
    }
}

impl<'src> Token<'src> {
    /// The range lies within the source and both of its ends lie on character boundaries.
    pub open spec fn well_formed(&self) -> bool {
        &&& self.range.start <= self.range.end <= self.source.spec_bytes().len()
        &&& is_char_boundary(self.source.spec_bytes(), self.range.start as int)
        &&& is_char_boundary(self.source.spec_bytes(), self.range.end as int)
    }

    /// The characters the range of this token covers.
    pub open spec fn text(&self) -> Seq<char> {
        decode_utf8(
            self.source.spec_bytes().subrange(self.range.start as int, self.range.end as int),
        )
    }

    /// What the parser sees of this token.
    pub open spec fn spec(&self) -> SpecToken {
        SpecToken { token_type: self.token_type, line: self.line, text: self.text() }
    }

    /// A copy of this token.
    pub fn duplicate(&self) -> (r: Self)
        ensures
            r == *self,
    {
        Token {
            token_type: self.token_type,
            range: self.range.start..self.range.end,
            line: self.line,
            source: self.source,
        }
    }

    /// Creates a generic new `Token`.
    pub fn new(token_type: TokenType, range: Range<usize>, line: usize, source: &'src str) -> (r:
        Self)
        ensures
            r == (Token { token_type, range, line, source }),
    {
        Self { token_type, range, line, source }
    }

    /// Creates a new `Token` representing the `=` operator.
    pub fn equals(source: &'src str, index: usize, line: usize) -> (r: Self)
        requires
            index < usize::MAX,
        ensures
            r == spec_token(TokenType::Equals, source, index as int, 1, line),
    {
        Self { token_type: TokenType::Equals, range: index..index + 1, line, source }
    }

    /// Creates a new `Token` representing the `;` terminator.
    pub fn semicolon(source: &'src str, index: usize, line: usize) -> (r: Self)
        requires
            index < usize::MAX,
        ensures
            r == spec_token(TokenType::Semicolon, source, index as int, 1, line),
    {
        Self { token_type: TokenType::Semicolon, range: index..index + 1, line, source }
    }

    /// Creates a new `Token` representing the `:` separator.
    pub fn colon(source: &'src str, index: usize, line: usize) -> (r: Self)
        requires
            index < usize::MAX,
        ensures
            r == spec_token(TokenType::Colon, source, index as int, 1, line),
    {
        Self { token_type: TokenType::Colon, range: index..index + 1, line, source }
    }

    /// Creates a new `Token` representing the `,` comma separator.
    pub fn comma(source: &'src str, index: usize, line: usize) -> (r: Self)
        requires
            index < usize::MAX,
        ensures
            r == spec_token(TokenType::Comma, source, index as int, 1, line),
    {
        Self { token_type: TokenType::Comma, range: index..index + 1, line, source }
    }

    /// Creates a new `Token` representing the `+` operator.
    pub fn plus(source: &'src str, index: usize, line: usize) -> (r: Self)
        requires
            index < usize::MAX,
        ensures
            r == spec_token(TokenType::Plus, source, index as int, 1, line),
    {
        Self { token_type: TokenType::Plus, range: index..index + 1, line, source }
    }

    /// Creates a new `Token` representing the `-` operator.
    pub fn minus(source: &'src str, index: usize, line: usize) -> (r: Self)
        requires
            index < usize::MAX,
        ensures
            r == spec_token(TokenType::Minus, source, index as int, 1, line),
    {
        Self { token_type: TokenType::Minus, range: index..index + 1, line, source }
    }

    /// Creates a new `Token` representing the `*` operator.
    pub fn star(source: &'src str, index: usize, line: usize) -> (r: Self)
        requires
            index < usize::MAX,
        ensures
            r == spec_token(TokenType::Star, source, index as int, 1, line),
    {
        Self { token_type: TokenType::Star, range: index..index + 1, line, source }
    }

    /// Creates a new `Token` representing the `/` operator.
    pub fn slash(source: &'src str, index: usize, line: usize) -> (r: Self)
        requires
            index < usize::MAX,
        ensures
            r == spec_token(TokenType::Slash, source, index as int, 1, line),
    {
        Self { token_type: TokenType::Slash, range: index..index + 1, line, source }
    }

    /// Creates a new `Token` representing the `!` operator.
    pub fn bang(source: &'src str, index: usize, line: usize) -> (r: Self)
        requires
            index < usize::MAX,
        ensures
            r == spec_token(TokenType::Bang, source, index as int, 1, line),
    {
        Self { token_type: TokenType::Bang, range: index..index + 1, line, source }
    }

    /// Creates a new `Token` representing the `(` character.
    pub fn left_parentheses(source: &'src str, index: usize, line: usize) -> (r: Self)
        requires
            index < usize::MAX,
        ensures
            r == spec_token(TokenType::LeftParentheses, source, index as int, 1, line),
    {
        Self { token_type: TokenType::LeftParentheses, range: index..index + 1, line, source }
    }

    /// Creates a new `Token` representing the `)` character.
    pub fn right_parentheses(source: &'src str, index: usize, line: usize) -> (r: Self)
        requires
            index < usize::MAX,
        ensures
            r == spec_token(TokenType::RightParentheses, source, index as int, 1, line),
    {
        Self { token_type: TokenType::RightParentheses, range: index..index + 1, line, source }
    }

    /// Creates a new `Token` representing the `{` character.
    pub fn left_brace(source: &'src str, index: usize, line: usize) -> (r: Self)
        requires
            index < usize::MAX,
        ensures
            r == spec_token(TokenType::LeftBrace, source, index as int, 1, line),
    {
        Self { token_type: TokenType::LeftBrace, range: index..index + 1, line, source }
    }

    /// Creates a new `Token` representing the `}` character.
    pub fn right_brace(source: &'src str, index: usize, line: usize) -> (r: Self)
        requires
            index < usize::MAX,
        ensures
            r == spec_token(TokenType::RightBrace, source, index as int, 1, line),
    {
        Self { token_type: TokenType::RightBrace, range: index..index + 1, line, source }
    }

    /// Creates a new `Token` representing the `>` character.
    pub fn greater_than(source: &'src str, index: usize, line: usize) -> (r: Self)
        requires
            index < usize::MAX,
        ensures
            r == spec_token(TokenType::GreaterThan, source, index as int, 1, line),
    {
        Self { token_type: TokenType::GreaterThan, range: index..index + 1, line, source }
    }

    /// Creates a new `Token` representing the `<` character.
    pub fn less_than(source: &'src str, index: usize, line: usize) -> (r: Self)
        requires
            index < usize::MAX,
        ensures
            r == spec_token(TokenType::LessThan, source, index as int, 1, line),
    {
        Self { token_type: TokenType::LessThan, range: index..index + 1, line, source }
    }

    /// Creates a new `Token` representing the `>=` sequence.
    pub fn greater_than_equals(source: &'src str, index: usize, line: usize) -> (r: Self)
        requires
            index < usize::MAX - 1,
        ensures
            r == spec_token(TokenType::GreaterThanEquals, source, index as int, 2, line),
    {
        Self { token_type: TokenType::GreaterThanEquals, range: index..index + 2, line, source }
    }

    /// Creates a new `Token` representing the `<=` sequence.
    pub fn less_than_equals(source: &'src str, index: usize, line: usize) -> (r: Self)
        requires
            index < usize::MAX - 1,
        ensures
            r == spec_token(TokenType::LessThanEquals, source, index as int, 2, line),
    {
        Self { token_type: TokenType::LessThanEquals, range: index..index + 2, line, source }
    }

    /// Creates a new `Token` representing the `==` sequence.
    pub fn equals_equals(source: &'src str, index: usize, line: usize) -> (r: Self)
        requires
            index < usize::MAX - 1,
        ensures
            r == spec_token(TokenType::EqualsEquals, source, index as int, 2, line),
    {
        Self { token_type: TokenType::EqualsEquals, range: index..index + 2, line, source }
    }

    /// Creates a new `Token` representing the `!=` sequence.
    pub fn bang_equals(source: &'src str, index: usize, line: usize) -> (r: Self)
        requires
            index < usize::MAX - 1,
        ensures
            r == spec_token(TokenType::BangEquals, source, index as int, 2, line),
    {
        Self { token_type: TokenType::BangEquals, range: index..index + 2, line, source }
    }

    /// Returns the text slice of this token from the original source code.
    pub fn value(&self) -> (r: &'src str)
        requires
            self.well_formed(),
        ensures
            r@ == self.text(),
    {
        let r = str_slice(self.source, self.range.start, self.range.end);
        proof {
            lemma_str_chars(r);
        }
        r
    }

    /// Returns the owned value of this token from the original source code.
    pub fn owned_value(&self) -> (r: String)
        requires
            self.well_formed(),
        ensures
            r@ == self.text(),
    {
        self.value().to_owned()
    }

    /// Returns the string value of a string literal token, stripping the surrounding double quotes.
    pub fn string_value(&self) -> (r: &'src str)
        requires
            self.well_formed(),
        ensures
            r@ == unquoted(self.text()),
    {
        let value = self.value();
        let n = value.unicode_len();
        let quoted = n >= 2 && value.get_char(0) == '"' && value.get_char(n - 1) == '"';
        if quoted {
            value.substring_char(1, n - 1)
        } else {
            value
        }
    }
}

/// A text without its surrounding double quotes, when it has both of them.
pub open spec fn unquoted(text: Seq<char>) -> Seq<char> {
    if text.len() >= 2 && text[0] == '"' && text[text.len() - 1] == '"' {
        text.subrange(1, text.len() - 1)
    } else {
        text
    }
}

} // verus!
