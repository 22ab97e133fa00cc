//! The lexical grammar, stated over the characters of a source text.
//!
//! `scan_step` says what one call of the lexer yields from a position:
//! whitespace is skipped, then one lexeme (a token or an error) is read.
//! `scan_all` is the whole token stream that the parser consumes.

use vstd::prelude::*;
use crate::lexer::error::SpecLexError;
use crate::lexer::token::{keyword_token_type, SpecToken, TokenType};

verus! {

/// Whitespace separates tokens; a newline also ends a line.
pub open spec fn is_whitespace(c: char) -> bool {
    c == ' ' || c == '\t' || c == '\r' || c == '\n'
}

/// An identifier starts with an ASCII letter or an underscore.
pub open spec fn is_identifier_start(c: char) -> bool {
    ('a' <= c && c <= 'z') || ('A' <= c && c <= 'Z') || c == '_'
}

/// An ASCII decimal digit.
pub open spec fn is_digit(c: char) -> bool {
    '0' <= c && c <= '9'
}

/// After its first character an identifier may also hold digits.
pub open spec fn is_identifier_char(c: char) -> bool {
    is_identifier_start(c) || is_digit(c)
}

/// The first position at or after `i` that does not hold whitespace.
pub open spec fn skip_whitespace(cs: Seq<char>, i: int) -> int
    decreases cs.len() - i,
{
    if 0 <= i < cs.len() && is_whitespace(cs[i]) {
        skip_whitespace(cs, i + 1)
    } else {
        i
    }
}

/// The end of the run of identifier characters that starts at `i`.
pub open spec fn identifier_end(cs: Seq<char>, i: int) -> int
    decreases cs.len() - i,
{
    if 0 <= i < cs.len() && is_identifier_char(cs[i]) {
        identifier_end(cs, i + 1)
    } else {
        i
    }
}

/// The end of the run of digits that starts at `i`.
pub open spec fn number_end(cs: Seq<char>, i: int) -> int
    decreases cs.len() - i,
{
    if 0 <= i < cs.len() && is_digit(cs[i]) {
        number_end(cs, i + 1)
    } else {
        i
    }
}

/// The position of the first double quote at or after `i`, if there is one.
pub open spec fn closing_quote(cs: Seq<char>, i: int) -> Option<int>
    decreases cs.len() - i,
{
    if 0 <= i < cs.len() {
        if cs[i] == '"' {
            Some(i)
        } else {
            closing_quote(cs, i + 1)
        }
    } else {
        None
    }
}

/// The number of newline characters in `cs`.
pub open spec fn newlines(cs: Seq<char>) -> nat
    decreases cs.len(),
{
    if cs.len() == 0 {
        0
    } else {
        newlines(cs.drop_last()) + if cs.last() == '\n' {
            1nat
        } else {
            0nat
        }
    }
}

/// The 1-based line of position `i`: one more than the newlines before it.
pub open spec fn line_at(cs: Seq<char>, i: int) -> nat {
    1 + newlines(cs.take(i))
}

/// What the lexer reads at one position: a token of a type spanning the
/// characters `start..end`, or an error.
pub enum Lexeme {
    Token(TokenType, int, int),
    Error(SpecLexError),
}

/// The type of a word that starts like an identifier: a keyword's own type, or `Identifier`.
pub open spec fn word_type(word: Seq<char>) -> TokenType {
    match keyword_token_type(word) {
        Some(t) => t,
        None => TokenType::Identifier,
    }
}

/// A one-character token at `p`.
pub open spec fn single(t: TokenType, p: int) -> (Lexeme, int) {
    (Lexeme::Token(t, p, p + 1), p + 1)
}

/// An operator at `p` that becomes `double` when `=` follows it and is `single` otherwise.
pub open spec fn operator(cs: Seq<char>, p: int, one: TokenType, double: TokenType) -> (
    Lexeme,
    int,
) {
    if p + 1 < cs.len() && cs[p + 1] == '=' {
        (Lexeme::Token(double, p, p + 2), p + 2)
    } else {
        single(one, p)
    }
}

/// The lexeme read at the first non-whitespace position `p` (which holds a character).
pub open spec fn lexeme_at(cs: Seq<char>, p: int) -> (Lexeme, int) {
    let c = cs[p];
    if c == '=' {
        operator(cs, p, TokenType::Equals, TokenType::EqualsEquals)
    } else if c == ';' {
        single(TokenType::Semicolon, p)
    } else if c == ':' {
        single(TokenType::Colon, p)
    } else if c == ',' {
        single(TokenType::Comma, p)
    } else if c == '+' {
        single(TokenType::Plus, p)
    } else if c == '-' {
        single(TokenType::Minus, p)
    } else if c == '*' {
        single(TokenType::Star, p)
    } else if c == '/' {
        single(TokenType::Slash, p)
    } else if c == '!' {
        operator(cs, p, TokenType::Bang, TokenType::BangEquals)
    } else if c == '>' {
        operator(cs, p, TokenType::GreaterThan, TokenType::GreaterThanEquals)
    } else if c == '<' {
        operator(cs, p, TokenType::LessThan, TokenType::LessThanEquals)
    } else if c == '(' {
        single(TokenType::LeftParentheses, p)
    } else if c == ')' {
        single(TokenType::RightParentheses, p)
    } else if c == '{' {
        single(TokenType::LeftBrace, p)
    } else if c == '}' {
        single(TokenType::RightBrace, p)
    } else if c == '"' {
        match closing_quote(cs, p + 1) {
            Some(q) => (Lexeme::Token(TokenType::StringLiteral, p, q + 1), q + 1),
            None => (
                Lexeme::Error(
                    SpecLexError::UnterminatedStringLiteral(
                        cs.subrange(p, cs.len() as int),
                        line_at(cs, cs.len() as int) as usize,
                    ),
                ),
                cs.len() as int,
            ),
        }
    } else if is_identifier_start(c) {
        let e = identifier_end(cs, p + 1);
        (Lexeme::Token(word_type(cs.subrange(p, e)), p, e), e)
    } else if is_digit(c) {
        let e = number_end(cs, p + 1);
        (Lexeme::Token(TokenType::WholeNumber, p, e), e)
    } else {
        (Lexeme::Error(SpecLexError::UnrecognizedChar(c, line_at(cs, p) as usize)), p)
    }
}

/// What one call of the lexer yields from position `i`, with the position after it;
/// `None` once only whitespace is left.
pub open spec fn scan_step(cs: Seq<char>, i: int) -> Option<(Lexeme, int)> {
    let p = skip_whitespace(cs, i);
    if p < cs.len() {
        Some(lexeme_at(cs, p))
    } else {
        None
    }
}

/// What the parser sees of a token spanning `start..end`.
pub open spec fn spec_token_at(cs: Seq<char>, t: TokenType, start: int, end: int) -> SpecToken {
    SpecToken { token_type: t, line: line_at(cs, end) as usize, text: cs.subrange(start, end) }
}

/// The tokens read from position `i` on, up to the end of the text or the first
/// error, together with that error.
pub open spec fn scan_all(cs: Seq<char>, i: int) -> (Seq<SpecToken>, Option<SpecLexError>)
    decreases cs.len() - i,
{
    match scan_step(cs, i) {
        None => (Seq::empty(), None),
        Some((Lexeme::Error(e), _)) => (Seq::empty(), Some(e)),
        Some((Lexeme::Token(t, s, e), next)) => {
            if i < next <= cs.len() {
                let rest = scan_all(cs, next);
                (seq![spec_token_at(cs, t, s, e)] + rest.0, rest.1)
            } else {
                (Seq::empty(), None)
            }
        },
    }
}

pub proof fn lemma_skip_whitespace(cs: Seq<char>, i: int)
    requires
        0 <= i <= cs.len(),
    ensures
        i <= skip_whitespace(cs, i) <= cs.len(),
        forall|k: int| i <= k < skip_whitespace(cs, i) ==> is_whitespace(#[trigger] cs[k]),
        skip_whitespace(cs, i) < cs.len() ==> !is_whitespace(cs[skip_whitespace(cs, i)]),
    decreases cs.len() - i,
{
    if i < cs.len() && is_whitespace(cs[i]) {
        lemma_skip_whitespace(cs, i + 1);
    }
}

pub proof fn lemma_identifier_end(cs: Seq<char>, i: int)
    requires
        0 <= i <= cs.len(),
    ensures
        i <= identifier_end(cs, i) <= cs.len(),
        forall|k: int| i <= k < identifier_end(cs, i) ==> is_identifier_char(#[trigger] cs[k]),
        identifier_end(cs, i) < cs.len() ==> !is_identifier_char(cs[identifier_end(cs, i)]),
    decreases cs.len() - i,
{
    if i < cs.len() && is_identifier_char(cs[i]) {
        lemma_identifier_end(cs, i + 1);
    }
}

pub proof fn lemma_number_end(cs: Seq<char>, i: int)
    requires
        0 <= i <= cs.len(),
    ensures
        i <= number_end(cs, i) <= cs.len(),
        forall|k: int| i <= k < number_end(cs, i) ==> is_digit(#[trigger] cs[k]),
        number_end(cs, i) < cs.len() ==> !is_digit(cs[number_end(cs, i)]),
    decreases cs.len() - i,
{
    if i < cs.len() && is_digit(cs[i]) {
        lemma_number_end(cs, i + 1);
    }
}

pub proof fn lemma_closing_quote(cs: Seq<char>, i: int)
    requires
        0 <= i <= cs.len(),
    ensures
        closing_quote(cs, i) matches Some(q) ==> i <= q < cs.len() && cs[q] == '"' && forall|k: int|
            i <= k < q ==> #[trigger] cs[k] != '"',
        closing_quote(cs, i) is None ==> forall|k: int| i <= k < cs.len() ==> #[trigger] cs[k]
            != '"',
    decreases cs.len() - i,
{
    if i < cs.len() && cs[i] != '"' {
        lemma_closing_quote(cs, i + 1);
    }
}

/// Each token read takes at least one character; an error at the end of a
/// string takes the rest of the text.
pub proof fn lemma_scan_step(cs: Seq<char>, i: int)
    requires
        0 <= i <= cs.len(),
    ensures
        scan_step(cs, i) matches Some((lx, next)) ==> i <= skip_whitespace(cs, i) <= next
            <= cs.len() && (lx matches Lexeme::Token(t, s, e) ==> skip_whitespace(cs, i) == s
            < e == next),
{
    lemma_skip_whitespace(cs, i);
    let p = skip_whitespace(cs, i);
    if p < cs.len() {
        lemma_identifier_end(cs, p + 1);
        lemma_number_end(cs, p + 1);
        lemma_closing_quote(cs, p + 1);
    }
}

/// Newlines are counted one character at a time.
pub proof fn lemma_newlines_step(cs: Seq<char>, i: int)
    requires
        0 <= i < cs.len(),
    ensures
        newlines(cs.take(i + 1)) == newlines(cs.take(i)) + if cs[i] == '\n' {
            1nat
        } else {
            0nat
        },
{
    assert(cs.take(i + 1).drop_last() =~= cs.take(i));
}

/// A text holds no more newlines than characters.
pub proof fn lemma_newlines_bound(cs: Seq<char>)
    ensures
        newlines(cs) <= cs.len(),
    decreases cs.len(),
{
    if cs.len() > 0 {
        lemma_newlines_bound(cs.drop_last());
    }
}

/// Newlines only accumulate: a later position is on the same line or a later one.
pub proof fn lemma_line_monotone(cs: Seq<char>, i: int, j: int)
    requires
        0 <= i <= j <= cs.len(),
    ensures
        line_at(cs, i) <= line_at(cs, j),
    decreases j - i,
{
    if i < j {
        lemma_line_monotone(cs, i, j - 1);
        lemma_newlines_step(cs, j - 1);
    }
}

/// Line numbers never go down: every token read from position `i` lies on the line
/// of `i` or a later one, and every token on the line of the token before it or a
/// later one.
pub proof fn lemma_token_lines_ordered(cs: Seq<char>, i: int)
    requires
        0 <= i <= cs.len(),
        cs.len() < usize::MAX,
    ensures
        forall|k: int|
            0 <= k < scan_all(cs, i).0.len() ==> line_at(cs, i) <= (#[trigger] scan_all(cs, i).0[k]).line,
        forall|a: int, b: int|
            0 <= a < b < scan_all(cs, i).0.len() ==> (#[trigger] scan_all(cs, i).0[a]).line <= (
            #[trigger] scan_all(cs, i).0[b]).line,
    decreases cs.len() - i,
{
    lemma_scan_step(cs, i);
    if let Some((Lexeme::Token(t, start, end), next)) = scan_step(cs, i) {
        if i < next <= cs.len() {
            lemma_token_lines_ordered(cs, next);
            lemma_line_monotone(cs, i, end);
            lemma_newlines_bound(cs.take(end));
            let first = spec_token_at(cs, t, start, end);
            let rest = scan_all(cs, next).0;
            let all = scan_all(cs, i).0;
            assert(all == seq![first] + rest);
            assert(first.line == line_at(cs, end));
            assert forall|k: int| 0 <= k < all.len() implies line_at(cs, i) <= (
            #[trigger] all[k]).line by {
                if k > 0 {
                    assert(all[k] == rest[k - 1]);
                }
            }
            assert forall|a: int, b: int| 0 <= a < b < all.len() implies (#[trigger] all[a]).line <= (
            #[trigger] all[b]).line by {
                assert(all[b] == rest[b - 1]);
                if a > 0 {
                    assert(all[a] == rest[a - 1]);
                }
            }
        }
    }
}

/// Lines do not change across characters that are not newlines.
pub proof fn lemma_same_line(cs: Seq<char>, s: int, e: int)
    requires
        0 <= s <= e <= cs.len(),
        forall|k: int| s <= k < e ==> #[trigger] cs[k] != '\n',
    ensures
        line_at(cs, s) == line_at(cs, e),
    decreases e - s,
{
    if s < e {
        lemma_same_line(cs, s, e - 1);
        lemma_newlines_step(cs, e - 1);
    }
}

/// What each call of the lexer reads, from where the call before it stopped: only
/// whitespace is skipped before a lexeme; a token spans at least one character and
/// the next call starts right after it, so that the tokens cover the text in order;
/// a call reads nothing exactly where only whitespace is left, and reads nothing
/// again at the end of the text.
pub proof fn lemma_scan_covers(cs: Seq<char>, i: int)
    requires
        0 <= i <= cs.len(),
    ensures
        scan_step(cs, i) is None <==> forall|k: int| i <= k < cs.len() ==> is_whitespace(#[trigger] cs[k]),
        scan_step(cs, cs.len() as int) is None,
        scan_step(cs, i) matches Some((Lexeme::Token(t, s, e), next)) ==> i <= s < e && e == next
            && next <= cs.len() && forall|k: int| i <= k < s ==> is_whitespace(#[trigger] cs[k]),
        scan_step(cs, i) matches Some((Lexeme::Error(err), next)) ==> i <= next <= cs.len(),
{
    lemma_skip_whitespace(cs, i);
    lemma_scan_step(cs, i);
    let p = skip_whitespace(cs, i);
    if p < cs.len() {
        assert(!is_whitespace(cs[p]));
    }
}

/// The line of each token and error: a token other than a string literal lies on the
/// line where it starts, a string literal on the line where it ends, an unrecognised
/// character on its own line, and an unterminated string on the last line.
pub proof fn lemma_lexeme_lines(cs: Seq<char>, i: int)
    requires
        0 <= i <= cs.len(),
        cs.len() < usize::MAX,
    ensures
        scan_step(cs, i) matches Some((Lexeme::Token(t, s, e), _)) ==> (t != TokenType::StringLiteral
            ==> line_at(cs, e) == line_at(cs, s)),
        scan_step(cs, i) matches Some((Lexeme::Error(SpecLexError::UnrecognizedChar(c, n)), _)) ==> n
            == line_at(cs, skip_whitespace(cs, i)) && c == cs[skip_whitespace(cs, i)],
        scan_step(cs, i) matches Some((Lexeme::Error(SpecLexError::UnterminatedStringLiteral(_, n)), _))
            ==> n == line_at(cs, cs.len() as int),
{
    lemma_skip_whitespace(cs, i);
    lemma_scan_step(cs, i);
    let p = skip_whitespace(cs, i);
    if p < cs.len() {
        lemma_identifier_end(cs, p + 1);
        lemma_number_end(cs, p + 1);
        lemma_newlines_bound(cs.take(p));
        lemma_newlines_bound(cs.take(cs.len() as int));
        assert(line_at(cs, p) <= usize::MAX);
        assert(line_at(cs, cs.len() as int) <= usize::MAX);
        if let Some((Lexeme::Token(t, s, e), _)) = scan_step(cs, i) {
            if t != TokenType::StringLiteral {
                assert forall|k: int| s <= k < e implies #[trigger] cs[k] != '\n' by {
                    if k > s {
                        assert(is_identifier_char(cs[k]) || is_digit(cs[k]) || cs[k] == '=');
                    }
                }
                lemma_same_line(cs, s, e);
            }
        }
    }
}

/// Where the lexer stands after a call from position `i`: after the lexeme it read,
/// or at the end of the text where it read nothing.
pub open spec fn after_call(cs: Seq<char>, i: int) -> int {
    match scan_step(cs, i) {
        None => cs.len() as int,
        Some((_, next)) => next,
    }
}

/// Where the lexer stands after `n` calls from position `i`.
pub open spec fn after_calls(cs: Seq<char>, i: int, n: nat) -> int
    decreases n,
{
    if n == 0 {
        i
    } else {
        after_calls(cs, after_call(cs, i), (n - 1) as nat)
    }
}

/// The calls go forward through the text and stay inside it.
pub proof fn lemma_after_calls_forward(cs: Seq<char>, i: int, a: nat, b: nat)
    requires
        0 <= i <= cs.len(),
        a <= b,
    ensures
        i <= after_calls(cs, i, a) <= after_calls(cs, i, b) <= cs.len(),
    decreases b,
{
    lemma_scan_covers(cs, i);
    lemma_scan_step(cs, i);
    if b > 0 {
        let j = after_call(cs, i);
        assert(i <= j <= cs.len());
        if a > 0 {
            lemma_after_calls_forward(cs, j, (a - 1) as nat, (b - 1) as nat);
        } else {
            lemma_after_calls_forward(cs, j, 0, (b - 1) as nat);
        }
    }
}

/// Over successive calls from the start of the text, the tokens come in order and
/// cover the text: the token of a later call starts where or after the token of an
/// earlier call ends, and between the tokens of two successive calls stands only
/// whitespace.
pub proof fn lemma_tokens_in_order(cs: Seq<char>, a: nat, b: nat)
    requires
        a < b,
    ensures
        scan_step(cs, after_calls(cs, 0, a)) matches Some((Lexeme::Token(_, sa, ea), _)) ==> (
        scan_step(cs, after_calls(cs, 0, b)) matches Some((Lexeme::Token(_, sb, eb), _)) ==> sa
            < ea <= sb < eb),
        scan_step(cs, after_calls(cs, 0, a)) matches Some((Lexeme::Token(_, sa, ea), _)) ==> (
        scan_step(cs, after_calls(cs, 0, a + 1)) matches Some((Lexeme::Token(_, sb, eb), _))
            ==> forall|k: int| ea <= k < sb ==> is_whitespace(#[trigger] cs[k])),
{
    lemma_after_calls_forward(cs, 0, a, (a + 1) as nat);
    lemma_after_calls_forward(cs, 0, (a + 1) as nat, b);
    lemma_after_calls_step(cs, 0, a);
    let pa = after_calls(cs, 0, a);
    let pb = after_calls(cs, 0, b);
    lemma_scan_covers(cs, pa);
    lemma_scan_covers(cs, pb);
    lemma_scan_covers(cs, after_calls(cs, 0, a + 1));
}

/// One more call goes on from where the calls before it left off.
pub proof fn lemma_after_calls_step(cs: Seq<char>, i: int, n: nat)
    ensures
        after_calls(cs, i, n + 1) == after_call(cs, after_calls(cs, i, n)),
    decreases n,
{
    let j = after_call(cs, i);
    assert(after_calls(cs, i, n + 1) == after_calls(cs, j, n));
    if n > 0 {
        lemma_after_calls_step(cs, j, (n - 1) as nat);
        assert(((n - 1) as nat) + 1 == n);
        assert(after_calls(cs, i, n) == after_calls(cs, j, (n - 1) as nat));
    }
}

/// Whether a character is an ASCII letter, the underscore or an ASCII digit.
pub open spec fn is_word_char(c: char) -> bool {
    ('a' <= c && c <= 'z') || ('A' <= c && c <= 'Z') || c == '_' || ('0' <= c && c <= '9')
}

/// Words: where the next lexeme starts with an ASCII letter or an underscore, the
/// lexer reads a token (an identifier or a keyword) that runs over the longest stretch
/// of letters, digits and underscores from there. Conversely, an identifier token
/// starts with a letter or an underscore and holds only letters, digits and
/// underscores.
pub proof fn lemma_words(cs: Seq<char>, i: int)
    requires
        0 <= i <= cs.len(),
    ensures
        ({
            let p = skip_whitespace(cs, i);
            p < cs.len() && (('a' <= cs[p] && cs[p] <= 'z') || ('A' <= cs[p] && cs[p] <= 'Z')
                || cs[p] == '_') ==> (scan_step(cs, i) matches Some((Lexeme::Token(t, s, e), next))
                && s == p && p < e && e == next && (t is Identifier || keyword_token_type(
                cs.subrange(s, e),
            ) == Some(t)) && (forall|k: int| s <= k < e ==> is_word_char(#[trigger] cs[k])) && (e
                < cs.len() ==> !is_word_char(cs[e])))
        }),
        scan_step(cs, i) matches Some((Lexeme::Token(TokenType::Identifier, s, e), _)) ==> s < e
            && (('a' <= cs[s] && cs[s] <= 'z') || ('A' <= cs[s] && cs[s] <= 'Z') || cs[s] == '_')
            && forall|k: int| s <= k < e ==> is_word_char(#[trigger] cs[k]),
{
    lemma_skip_whitespace(cs, i);
    lemma_scan_step(cs, i);
    let p = skip_whitespace(cs, i);
    if p < cs.len() {
        lemma_identifier_end(cs, p + 1);
        lemma_number_end(cs, p + 1);
        let e = identifier_end(cs, p + 1);
        if is_identifier_start(cs[p]) {
            assert forall|k: int| p <= k < e implies is_word_char(#[trigger] cs[k]) by {
                if k > p {
                    assert(is_identifier_char(cs[k]));
                }
            }
        }
    }
}

} // verus!
