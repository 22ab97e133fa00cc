//! The `lexer` module contains the scanner/tokenizer implementation.
//!
//! It converts a raw string of source code into a stream of structured `Token`s.

pub mod error;
pub mod keywords;
pub mod scan;
pub mod token;

use vstd::prelude::*;
use vstd::string::StringSliceAdditionalSpecFns;
use std::ops::Range;
use crate::lexer::error::LexError;
use crate::lexer::keywords::Keywords;
use crate::lexer::scan::{
    closing_quote, identifier_end, is_digit, is_identifier_char, is_identifier_start, lemma_identifier_end,
    lemma_newlines_bound, lemma_newlines_step, lemma_number_end, lemma_skip_whitespace, line_at,
    number_end, scan_step, skip_whitespace, spec_token_at, word_type, Lexeme,
};
use crate::lexer::token::{Token, TokenType, SpecToken};
use crate::text::{
    byte_len, chars_of, lemma_bytes_text, lemma_str_chars, lemma_take_boundary,
    lemma_utf8_len_prefix, lemma_utf8_len_step, str_slice, utf8_len, utf8_width,
};

verus! {

broadcast use vstd::string::group_string_axioms;

/// A convenience type alias for standard Result returned by the lexer.
pub type LexResult<'src> = Result<Token<'src>, LexError>;

/// The token of type `t` that spans the characters `s..e` of `source`.
pub open spec fn token_at<'src>(source: &'src str, t: TokenType, s: int, e: int) -> Token<'src> {
    let cs = source@;
    Token {
        token_type: t,
        range: Range { start: utf8_len(cs.take(s)) as usize, end: utf8_len(cs.take(e)) as usize },
        line: line_at(cs, e) as usize,
        source,
    }
}

/// What the lexer returns for a lexeme of the grammar.
pub open spec fn yields<'src>(source: &'src str, lx: Lexeme, r: LexResult<'src>) -> bool {
    match lx {
        Lexeme::Token(t, s, e) => r == Ok::<Token<'src>, LexError>(token_at(source, t, s, e)),
        Lexeme::Error(err) => r is Err && r->Err_0@ == err,
    }
}

/// A token that spans whole characters of its source is well formed, and its
/// text is exactly those characters.
pub proof fn lemma_token_at(source: &str, t: TokenType, s: int, e: int)
    requires
        0 <= s <= e <= source@.len(),
        line_at(source@, e) <= usize::MAX,
        source.spec_bytes().len() <= usize::MAX,
    ensures
        token_at(source, t, s, e).well_formed(),
        token_at(source, t, s, e).spec() == spec_token_at(source@, t, s, e),
{
    let cs = source@;
    lemma_utf8_len_prefix(cs.take(e), s);
    assert(cs.take(e).take(s) =~= cs.take(s));
    lemma_utf8_len_prefix(cs, e);
    lemma_take_boundary(cs, s);
    lemma_take_boundary(cs, e);
    lemma_bytes_text(cs, s, e);
}

/// The line count moves past one character.
proof fn lemma_line_step(cs: Seq<char>, i: int)
    requires
        0 <= i < cs.len(),
    ensures
        line_at(cs, i + 1) == line_at(cs, i) + if cs[i] == '\n' {
            1nat
        } else {
            0nat
        },
        line_at(cs, i) <= i + 1,
{
    lemma_newlines_step(cs, i);
    lemma_newlines_bound(cs.take(i));
}

/// A stateful lexical analyzer that scans source code and emits tokens.
///
/// The `Lexer` is an on-demand, lazy stream of `LexResult`s: each call of
/// [`Lexer::next`] scans one more token.
pub struct Lexer<'src> {
    source: &'src str,
    chars: Vec<char>,
    position: usize,
    offset: usize,
    keywords: Keywords,
    line: usize,
}

impl<'src> Lexer<'src> {
    /// The source text being scanned.
    pub closed spec fn source(&self) -> &'src str {
        self.source
    }

    /// The index of the next character to scan.
    pub closed spec fn position(&self) -> int {
        self.position as int
    }

    spec fn chars_ok(&self) -> bool {
        &&& self.chars@ == self.source@
        &&& self.position <= self.chars@.len()
        &&& self.chars@.len() < usize::MAX
        &&& self.offset == utf8_len(self.source@.take(self.position as int))
        &&& self.source.spec_bytes().len() <= usize::MAX
    }

    /// The scanning state is consistent with the source text.
    pub closed spec fn wf(&self) -> bool {
        &&& self.chars_ok()
        &&& self.line == line_at(self.source@, self.position as int)
    }

    /// The lexer is consistent and its position lies within its source.
    pub proof fn lemma_wf(&self)
        requires
            self.wf(),
        ensures
            0 <= self.position() <= self.source()@.len() < usize::MAX,
            self.source().spec_bytes().len() <= usize::MAX,
    {
    }

    /// Creates a new `Lexer` instance for the given source string.
    pub fn new(source: &'src str, keywords: Keywords) -> (r: Self)
        requires
            source@.len() < usize::MAX,
        ensures
            r.wf(),
            r.source() == source,
            r.position() == 0,
    {
        let chars = chars_of(source);
        let _ = byte_len(source);
        proof {
            assert(source@.take(0) =~= Seq::<char>::empty());
            assert(utf8_len(source@.take(0)) == 0) by {
                assert(vstd::utf8::encode_utf8(source@.take(0)) =~= Seq::<u8>::empty());
            }
        }
        Self { source, chars, position: 0, offset: 0, keywords, line: 1 }
    }

    fn move_ahead(&mut self) -> (r: Option<(usize, char)>)
        requires
            old(self).chars_ok(),
        ensures
            final(self).chars_ok(),
            final(self).source == old(self).source,
            final(self).line == old(self).line,
            old(self).position < old(self).chars@.len() ==> r == Some(
                (old(self).offset, old(self).chars@[old(self).position as int]),
            ) && final(self).position == old(self).position + 1,
            old(self).position >= old(self).chars@.len() ==> r is None && final(self).position
                == old(self).position,
    {
        if self.position < self.chars.len() {
            let c = self.chars[self.position];
            let at = self.offset;
            proof {
                lemma_utf8_len_step(self.source@, self.position as int);
                lemma_utf8_len_prefix(self.source@, self.position as int);
            }
            self.offset = self.offset + utf8_width(c);
            self.position = self.position + 1;
            Some((at, c))
        } else {
            None
        }
    }

    fn peek(&self) -> (r: Option<(usize, char)>)
        requires
            self.chars_ok(),
        ensures
            self.position < self.chars@.len() ==> r == Some(
                (self.offset, self.chars@[self.position as int]),
            ),
            self.position >= self.chars@.len() ==> r is None,
    {
        if self.position < self.chars.len() {
            Some((self.offset, self.chars[self.position]))
        } else {
            None
        }
    }

    fn increment_line(&mut self)
        requires
            old(self).line < usize::MAX,
        ensures
            final(self).line == old(self).line + 1,
            final(self).source == old(self).source,
            final(self).chars == old(self).chars,
            final(self).position == old(self).position,
            final(self).offset == old(self).offset,
    {
        self.line = self.line + 1;
    }

    fn skip_whitespace(&mut self)
        requires
            old(self).wf(),
        ensures
            final(self).wf(),
            final(self).source == old(self).source,
            final(self).position == skip_whitespace(
                old(self).source@,
                old(self).position as int,
            ),
    {
        let ghost cs = self.source@;
        let ghost src = self.source;
        let ghost start = self.position as int;
        loop
            invariant
                self.wf(),
                self.source@ == cs,
                self.source == src,
                start <= self.position <= cs.len(),
                skip_whitespace(cs, self.position as int) == skip_whitespace(cs, start),
            ensures
                self.wf(),
                self.source@ == cs,
                self.source == src,
                self.position == skip_whitespace(cs, start),
            decreases cs.len() - self.position,
        {
            match self.peek() {
                Some((_, c)) => {
                    proof {
                        lemma_line_step(cs, self.position as int);
                    }
                    if c == '\n' {
                        self.increment_line();
                        self.move_ahead();
                    } else if c == ' ' || c == '\t' || c == '\r' {
                        self.move_ahead();
                    } else {
                        break;
                    }
                },
                None => {
                    break;
                },
            }
        }
    }

    fn maybe_identifier(&mut self, index: usize, Ghost(p): Ghost<int>) -> (r: LexResult<'src>)
        requires
            old(self).wf(),
            0 <= p == old(self).position < old(self).chars@.len(),
            index == utf8_len(old(self).source@.take(p)),
            is_identifier_start(old(self).source@[p]),
        ensures
            final(self).wf(),
            final(self).source == old(self).source,
            final(self).position == identifier_end(old(self).source@, p + 1),
            yields(
                old(self).source,
                Lexeme::Token(
                    word_type(
                        old(self).source@.subrange(p, identifier_end(old(self).source@, p + 1)),
                    ),
                    p,
                    identifier_end(old(self).source@, p + 1),
                ),
                r,
            ),
    {
        let ghost cs = self.source@;
        let ghost src = self.source;
        loop
            invariant
                self.wf(),
                self.source@ == cs,
                self.source == src,
                src == old(self).source,
                index == utf8_len(cs.take(p)),
                0 <= p < cs.len(),
                p <= self.position <= cs.len(),
                self.position == p ==> is_identifier_start(cs[p]),
                identifier_end(cs, self.position as int) == identifier_end(cs, p + 1),
            decreases cs.len() - self.position,
        {
            match self.peek() {
                Some((next_index, c)) => {
                    proof {
                        lemma_line_step(cs, self.position as int);
                    }
                    if Self::is_identifier_char(c) {
                        self.move_ahead();
                    } else {
                        return self.identifier_or_keyword(
                            index,
                            next_index,
                            Ghost(p),
                            Ghost(self.position as int),
                        );
                    }
                },
                None => {
                    let end = byte_len(self.source);
                    proof {
                        assert(cs.take(cs.len() as int) =~= cs);
                    }
                    return self.identifier_or_keyword(
                        index,
                        end,
                        Ghost(p),
                        Ghost(self.position as int),
                    );
                },
            }
        }
    }

    fn identifier_or_keyword(
        &self,
        index: usize,
        last_index: usize,
        Ghost(p): Ghost<int>,
        Ghost(e): Ghost<int>,
    ) -> (r: LexResult<'src>)
        requires
            self.wf(),
            0 <= p < e == self.position,
            index == utf8_len(self.source@.take(p)),
            last_index == utf8_len(self.source@.take(e)),
        ensures
            yields(self.source, Lexeme::Token(word_type(self.source@.subrange(p, e)), p, e), r),
    {
        let ghost cs = self.source@;
        proof {
            lemma_utf8_len_prefix(cs.take(e), p);
            assert(cs.take(e).take(p) =~= cs.take(p));
            lemma_utf8_len_prefix(cs, e);
            lemma_take_boundary(cs, p);
            lemma_take_boundary(cs, e);
        }
        let token = str_slice(self.source, index, last_index);
        proof {
            lemma_str_chars(token);
            lemma_bytes_text(cs, p, e);
        }
        if self.keywords.has(token) {
            let token_type = TokenType::keyword_type(token, self.line)?;
            return Ok(Token::new(token_type, index..last_index, self.line, self.source));
        }
        Ok(Token::new(TokenType::Identifier, index..last_index, self.line, self.source))
    }

    fn whole_number(&mut self, index: usize, Ghost(p): Ghost<int>) -> (r: LexResult<'src>)
        requires
            old(self).wf(),
            0 <= p == old(self).position < old(self).chars@.len(),
            index == utf8_len(old(self).source@.take(p)),
            is_digit(old(self).source@[p]),
        ensures
            final(self).wf(),
            final(self).source == old(self).source,
            final(self).position == number_end(old(self).source@, p + 1),
            yields(
                old(self).source,
                Lexeme::Token(TokenType::WholeNumber, p, number_end(old(self).source@, p + 1)),
                r,
            ),
    {
        let ghost cs = self.source@;
        let ghost src = self.source;
        loop
            invariant
                self.wf(),
                self.source@ == cs,
                self.source == src,
                src == old(self).source,
                index == utf8_len(cs.take(p)),
                0 <= p < cs.len(),
                p <= self.position <= cs.len(),
                number_end(cs, self.position as int) == number_end(cs, p + 1),
                self.position == p ==> is_digit(cs[p]),
            decreases cs.len() - self.position,
        {
            match self.peek() {
                Some((next_index, c)) => {
                    proof {
                        lemma_line_step(cs, self.position as int);
                    }
                    if Self::looks_like_whole_number(c) {
                        self.move_ahead();
                    } else {
                        return Ok(
                            Token::new(TokenType::WholeNumber, index..next_index, self.line, self.source),
                        );
                    }
                },
                None => {
                    let end = byte_len(self.source);
                    proof {
                        assert(cs.take(cs.len() as int) =~= cs);
                    }
                    return Ok(
                        Token::new(TokenType::WholeNumber, index..end, self.line, self.source),
                    );
                },
            }
        }
    }

    fn string(&mut self, index: usize, Ghost(p): Ghost<int>) -> (r: LexResult<'src>)
        requires
            old(self).wf(),
            0 <= p,
            p + 1 == old(self).position <= old(self).chars@.len(),
            index == utf8_len(old(self).source@.take(p)),
            old(self).source@[p] == '"',
        ensures
            final(self).wf(),
            final(self).source == old(self).source,
            match closing_quote(old(self).source@, p + 1) {
                Some(q) => final(self).position == q + 1 && yields(
                    old(self).source,
                    Lexeme::Token(TokenType::StringLiteral, p, q + 1),
                    r,
                ),
                None => final(self).position == old(self).source@.len() && r is Err
                    && r->Err_0@ == crate::lexer::error::SpecLexError::UnterminatedStringLiteral(
                    old(self).source@.subrange(p, old(self).source@.len() as int),
                    line_at(old(self).source@, old(self).source@.len() as int) as usize,
                ),
            },
    {
        let ghost cs = self.source@;
        let ghost src = self.source;
        loop
            invariant
                self.wf(),
                self.source@ == cs,
                self.source == src,
                src == old(self).source,
                index == utf8_len(cs.take(p)),
                0 <= p < cs.len(),
                cs[p] == '"',
                p + 1 <= self.position <= cs.len(),
                closing_quote(cs, self.position as int) == closing_quote(cs, p + 1),
            ensures
                self.wf(),
                self.source == src,
                src == old(self).source,
                index == utf8_len(cs.take(p)),
                0 <= p < cs.len(),
                self.position == cs.len(),
                closing_quote(cs, p + 1) is None,
            decreases cs.len() - self.position,
        {
            match self.peek() {
                Some((next_index, c)) => {
                    proof {
                        lemma_line_step(cs, self.position as int);
                        lemma_utf8_len_step(cs, self.position as int);
                        lemma_utf8_len_prefix(cs, self.position as int);
                    }
                    if c == '"' {
                        self.move_ahead();
                        return Ok(
                            Token::new(
                                TokenType::StringLiteral,
                                index..next_index + 1,
                                self.line,
                                self.source,
                            ),
                        );
                    }
                    if c == '\n' {
                        self.increment_line();
                    }
                    self.move_ahead();
                },
                None => {
                    break;
                },
            }
        }
        let end = byte_len(self.source);
        proof {
            assert(cs.take(cs.len() as int) =~= cs);
            lemma_utf8_len_prefix(cs, p);
            lemma_take_boundary(cs, p);
            lemma_take_boundary(cs, cs.len() as int);
        }
        let rest = str_slice(self.source, index, end);
        proof {
            lemma_str_chars(rest);
            lemma_bytes_text(cs, p, cs.len() as int);
            assert(rest@ == cs.subrange(p, cs.len() as int));
            assert(closing_quote(cs, p + 1) is None);
        }
        let text = rest.to_owned();
        assert(text@ == cs.subrange(p, cs.len() as int));
        Err(LexError::UnterminatedStringLiteral(text, self.line))
    }

    fn is_identifier_start(ch: char) -> (r: bool)
        ensures
            r == is_identifier_start(ch),
    {
        (ch >= 'a' && ch <= 'z') || (ch >= 'A' && ch <= 'Z') || ch == '_'
    }

    fn is_identifier_char(ch: char) -> (r: bool)
        ensures
            r == is_identifier_char(ch),
    {
        Self::is_identifier_start(ch) || Self::looks_like_whole_number(ch)
    }

    fn looks_like_whole_number(ch: char) -> (r: bool)
        ensures
            r == is_digit(ch),
    {
        ch >= '0' && ch <= '9'
    }

    fn match_next(&mut self, expected: char) -> (r: bool)
        requires
            old(self).wf(),
            expected != '\n',
        ensures
            final(self).wf(),
            final(self).source == old(self).source,
            r == (old(self).position < old(self).chars@.len() && old(self).chars@[old(
                self,
            ).position as int] == expected),
            final(self).position == old(self).position + if r {
                1int
            } else {
                0int
            },
    {
        if let Some((_, ch)) = self.peek() {
            if ch == expected {
                proof {
                    lemma_line_step(self.source@, self.position as int);
                }
                self.move_ahead();
                return true;
            }
        }
        false
    }

    /// Scans the next token from the source code.
    ///
    /// Silently consumes any leading whitespace or newlines, updating the line counter.
    /// Returns `Some(Ok(Token))` for successfully scanned tokens, `Some(Err(LexError))`
    /// if a scanning error occurs, and `None` when the end of the source is reached.
    #[verifier::rlimit(60)]
    #[verifier::spinoff_prover]
    pub fn next(&mut self) -> (r: Option<LexResult<'src>>)
        requires
            old(self).wf(),
        ensures
            final(self).wf(),
            final(self).source() == old(self).source(),
            match scan_step(old(self).source()@, old(self).position()) {
                None => r is None && final(self).position() == old(self).source()@.len(),
                Some((lx, next)) => r matches Some(x) && yields(old(self).source(), lx, x)
                    && final(self).position() == next,
            },
    {
        let ghost cs = self.source@;
        self.skip_whitespace();
        proof {
            lemma_skip_whitespace(cs, old(self).position as int);
        }
        if let Some((index, ch)) = self.peek() {
            let ghost p = self.position as int;
            proof {
                lemma_line_step(cs, p);
                lemma_utf8_len_step(cs, p);
                lemma_utf8_len_prefix(cs, p);
                if p + 1 < cs.len() {
                    lemma_line_step(cs, p + 1);
                    lemma_utf8_len_step(cs, p + 1);
                    lemma_utf8_len_prefix(cs, p + 1);
                }
                lemma_identifier_end(cs, p + 1);
                lemma_number_end(cs, p + 1);
            }
            if ch == '=' {
                self.move_ahead();
                if self.match_next('=') {
                    Some(Ok(Token::equals_equals(self.source, index, self.line)))
                } else {
                    Some(Ok(Token::equals(self.source, index, self.line)))
                }
            } else if ch == ';' {
                self.move_ahead();
                Some(Ok(Token::semicolon(self.source, index, self.line)))
            } else if ch == ':' {
                self.move_ahead();
                Some(Ok(Token::colon(self.source, index, self.line)))
            } else if ch == ',' {
                self.move_ahead();
                Some(Ok(Token::comma(self.source, index, self.line)))
            } else if ch == '+' {
                self.move_ahead();
                Some(Ok(Token::plus(self.source, index, self.line)))
            } else if ch == '-' {
                self.move_ahead();
                Some(Ok(Token::minus(self.source, index, self.line)))
            } else if ch == '*' {
                self.move_ahead();
                Some(Ok(Token::star(self.source, index, self.line)))
            } else if ch == '/' {
                self.move_ahead();
                Some(Ok(Token::slash(self.source, index, self.line)))
            } else if ch == '!' {
                self.move_ahead();
                if self.match_next('=') {
                    Some(Ok(Token::bang_equals(self.source, index, self.line)))
                } else {
                    Some(Ok(Token::bang(self.source, index, self.line)))
                }
            } else if ch == '>' {
                self.move_ahead();
                if self.match_next('=') {
                    Some(Ok(Token::greater_than_equals(self.source, index, self.line)))
                } else {
                    Some(Ok(Token::greater_than(self.source, index, self.line)))
                }
            } else if ch == '<' {
                self.move_ahead();
                if self.match_next('=') {
                    Some(Ok(Token::less_than_equals(self.source, index, self.line)))
                } else {
                    Some(Ok(Token::less_than(self.source, index, self.line)))
                }
            } else if ch == '(' {
                self.move_ahead();
                Some(Ok(Token::left_parentheses(self.source, index, self.line)))
            } else if ch == ')' {
                self.move_ahead();
                Some(Ok(Token::right_parentheses(self.source, index, self.line)))
            } else if ch == '{' {
                self.move_ahead();
                Some(Ok(Token::left_brace(self.source, index, self.line)))
            } else if ch == '}' {
                self.move_ahead();
                Some(Ok(Token::right_brace(self.source, index, self.line)))
            } else if ch == '"' {
                self.move_ahead();
                Some(self.string(index, Ghost(p)))
            } else if Self::is_identifier_start(ch) {
                Some(self.maybe_identifier(index, Ghost(p)))
            } else if Self::looks_like_whole_number(ch) {
                Some(self.whole_number(index, Ghost(p)))
            } else {
                Some(Err(LexError::UnrecognizedChar(ch, self.line)))
            }
        } else {
            None
        }
    }
}

} // verus!
