//! The token stream the sub-parsers read from.

use vstd::prelude::*;
use vstd::string::StringSliceAdditionalSpecFns;
use crate::ast::statement::{NodeId, NodeIds};
use crate::lexer::error::{LexError, SpecLexError};
use crate::lexer::scan::{
    lemma_newlines_bound, lemma_scan_step, line_at, scan_all, scan_step, Lexeme,
};
use crate::lexer::token::{SpecToken, Token, TokenType};
use crate::lexer::{lemma_token_at, Lexer, LexResult};
use crate::parser::error::{ParseError, SpecParseError};
use crate::parser::grammar::{expect_type, look, next_is, next_token, separator, Look, Parsed, Separator};

verus! {

/// A stateful wrapper around the lexer's tokens that provides helper methods for parsing.
///
/// `ParserStream` reads the whole token stream of a lexer up front: the tokens up to
/// the end of the source or the first lexical error, and that error. Sub-parsers look
/// ahead, assert token types and meet the end of the input or the error in the order
/// the lexer produced them. The stream also issues the identifiers of the syntax
/// tree's nodes.
pub struct ParserStream<'src> {
    tokens: Vec<Token<'src>>,
    end: Option<LexError>,
    position: usize,
    ids: NodeIds,
}

/// What the parser sees of a sequence of tokens.
pub open spec fn spec_tokens<'src>(ts: Seq<Token<'src>>) -> Seq<SpecToken> {
    ts.map_values(|t: Token<'src>| t.spec())
}

/// What a lookahead returns for what stands at a position.
pub open spec fn peeked<'a, 'src>(r: Result<Option<&'a Token<'src>>, ParseError>, l: Look) -> bool {
    match l {
        Look::Token(t) => r matches Ok(Some(tok)) && tok.spec() == t && tok.well_formed(),
        Look::Error(e) => r matches Err(err) && err@ == SpecParseError::LexError(e),
        Look::End => r matches Ok(None),
    }
}

/// What reading a token returns, where the grammar says `p`; the stream then stands at `pos`.
pub open spec fn token_outcome<'src>(r: Result<Token<'src>, ParseError>, p: Parsed<SpecToken>, pos: int) -> bool {
    match p {
        Parsed::Done(t, q) => r matches Ok(tok) && tok.spec() == t && tok.well_formed() && pos == q,
        Parsed::Failed(e) => r matches Err(err) && err@ == e,
        Parsed::Halted => false,
    }
}

/// What a parse returns where the grammar says `p`; the stream then stands at `pos`.
/// A form the parser does not implement is reported as `UnimplementedStatement`, and
/// no other error is.
pub open spec fn outcome<T: View>(r: Result<T, ParseError>, p: Parsed<T::V>, pos: int) -> bool {
    match p {
        Parsed::Done(v, q) => r matches Ok(x) && x@ == v && pos == q,
        Parsed::Failed(e) => r matches Err(err) && err@ == e && !(err is UnimplementedStatement),
        Parsed::Halted => r matches Err(err) && err is UnimplementedStatement,
    }
}

/// What a parse returns where the grammar says `p`, seen through `view`; the stream
/// then stands at `pos`. Forms the parser does not implement are reported as in
/// [`outcome`].
pub open spec fn outcome_as<T, V>(
    r: Result<T, ParseError>,
    p: Parsed<V>,
    pos: int,
    view: spec_fn(T) -> V,
) -> bool {
    match p {
        Parsed::Done(v, q) => r matches Ok(x) && view(x) == v && pos == q,
        Parsed::Failed(e) => r matches Err(err) && err@ == e && !(err is UnimplementedStatement),
        Parsed::Halted => r matches Err(err) && err is UnimplementedStatement,
    }
}

/// The stream moved forward over the same input, and issued at most `extra` more
/// identifiers than the tokens it consumed.
pub open spec fn advanced<'src>(before: ParserStream<'src>, after: ParserStream<'src>, extra: int) -> bool {
    &&& after.wf()
    &&& after.tokens() == before.tokens()
    &&& after.end() == before.end()
    &&& before.pos() <= after.pos()
    &&& after.budget() <= before.budget() + extra
}

impl<'src> ParserStream<'src> {
    /// What the parser sees of the tokens.
    pub closed spec fn tokens(&self) -> Seq<SpecToken> {
        spec_tokens(self.tokens@)
    }

    /// The lexical error that ended the tokens, if any.
    pub closed spec fn end(&self) -> Option<SpecLexError> {
        match self.end {
            Some(e) => Some(e@),
            None => None,
        }
    }

    /// The index of the next token.
    pub closed spec fn pos(&self) -> int {
        self.position as int
    }

    /// The last node identifier issued.
    pub closed spec fn last_id(&self) -> int {
        self.ids.last() as int
    }

    /// Every token spans whole characters of its source, and the position lies within the tokens.
    pub closed spec fn valid(&self) -> bool {
        &&& forall|i: int| 0 <= i < self.tokens@.len() ==> (#[trigger] self.tokens@[i]).well_formed()
        &&& self.position <= self.tokens@.len()
    }

    /// The last identifier issued plus the number of tokens left: each token left can
    /// pay for one more identifier.
    pub open spec fn budget(&self) -> int {
        self.last_id() + self.tokens().len() - self.pos()
    }

    /// The stream is consistent, and the identifiers still to be issued fit in a `usize`.
    pub open spec fn wf(&self) -> bool {
        &&& self.valid()
        &&& 0 <= self.pos() <= self.tokens().len()
        &&& 0 <= self.last_id()
        &&& self.budget() <= usize::MAX
    }

    proof fn lemma_valid(&self)
        requires
            self.valid(),
        ensures
            self.tokens().len() == self.tokens@.len(),
            forall|i: int|
                0 <= i < self.tokens@.len() ==> #[trigger] self.tokens()[i] == self.tokens@[i].spec(),
    {
    }

    /// Creates a stream of the tokens `lexer` yields from its position on.
    pub fn new(lexer: Lexer<'src>) -> (r: Self)
        requires
            lexer.wf(),
        ensures
            r.wf(),
            r.pos() == 0,
            r.last_id() == 0,
            r.tokens() == scan_all(lexer.source()@, lexer.position()).0,
            r.end() == scan_all(lexer.source()@, lexer.position()).1,
    {
        let mut scanner = lexer;
        let (tokens, end) = Self::read_all(&mut scanner);
        ParserStream { tokens, end, position: 0, ids: NodeIds::new() }
    }

    /// Runs the lexer to the end of its source or its first error.
    #[verifier::rlimit(40)]
    fn read_all(lexer: &mut Lexer<'src>) -> (r: (Vec<Token<'src>>, Option<LexError>))
        requires
            old(lexer).wf(),
        ensures
            forall|i: int| 0 <= i < r.0@.len() ==> (#[trigger] r.0@[i]).well_formed(),
            r.0@.len() < usize::MAX,
            spec_tokens(r.0@) == scan_all(old(lexer).source()@, old(lexer).position()).0,
            match r.1 {
                Some(e) => Some(e@),
                None => None,
            } == scan_all(old(lexer).source()@, old(lexer).position()).1,
    {
        let ghost cs = lexer.source()@;
        let ghost source = lexer.source();
        let ghost start = lexer.position();
        let mut tokens: Vec<Token<'src>> = Vec::new();
        proof {
            lexer.lemma_wf();
        }
        loop
            invariant
                lexer.wf(),
                lexer.source() == source,
                source@ == cs,
                cs == old(lexer).source()@,
                start == old(lexer).position(),
                cs.len() < usize::MAX,
                source.spec_bytes().len() <= usize::MAX,
                0 <= start <= lexer.position() <= cs.len(),
                tokens@.len() <= lexer.position() - start,
                forall|i: int| 0 <= i < tokens@.len() ==> (#[trigger] tokens@[i]).well_formed(),
                scan_all(cs, start).0 == spec_tokens(tokens@) + scan_all(cs, lexer.position()).0,
                scan_all(cs, start).1 == scan_all(cs, lexer.position()).1,
            decreases cs.len() - lexer.position(),
        {
            let ghost i = lexer.position();
            let ghost before = spec_tokens(tokens@);
            proof {
                lemma_scan_step(cs, i);
            }
            let next = lexer.next();
            proof {
                lexer.lemma_wf();
            }
            match next {
                None => {
                    assert(scan_step(cs, i) is None);
                    assert(scan_all(cs, i).0 =~= Seq::<SpecToken>::empty());
                    assert(before + scan_all(cs, i).0 =~= before);
                    return (tokens, None);
                },
                Some(Err(e)) => {
                    assert(scan_all(cs, i).0 =~= Seq::<SpecToken>::empty());
                    assert(before + scan_all(cs, i).0 =~= before);
                    return (tokens, Some(e));
                },
                Some(Ok(token)) => {
                    let ghost step = scan_step(cs, i);
                    proof {
                        let (lx, nxt) = step.unwrap();
                        if let Lexeme::Token(t, s, e) = lx {
                            lemma_newlines_bound(cs.take(e));
                            lemma_token_at(source, t, s, e);
                            assert(token.well_formed());
                            let rest = scan_all(cs, nxt);
                            assert(scan_all(cs, i).0 == seq![token.spec()] + rest.0);
                            assert(spec_tokens(tokens@.push(token)) =~= before.push(token.spec()));
                            assert(before + (seq![token.spec()] + rest.0) =~= before.push(
                                token.spec(),
                            ) + rest.0);
                        }
                    }
                    tokens.push(token);
                },
            }
        }
    }

    /// Peeks at the next item of the token stream without consuming it.
    ///
    /// Returns `Ok(None)` at the end of the input.
    pub fn peek(&self) -> (r: Result<Option<&Token<'src>>, ParseError>)
        requires
            self.wf(),
        ensures
            peeked(r, look(self.tokens(), self.end(), self.pos())),
    {
        proof {
            self.lemma_valid();
        }
        if self.position < self.tokens.len() {
            Ok(Some(&self.tokens[self.position]))
        } else {
            match &self.end {
                Some(e) => Err(ParseError::LexError(e.duplicate())),
                None => Ok(None),
            }
        }
    }

    /// Peeks at the item after the next one, without consuming anything.
    pub fn peek_second(&self) -> (r: Result<Option<&Token<'src>>, ParseError>)
        requires
            self.wf(),
        ensures
            peeked(r, look(self.tokens(), self.end(), self.pos() + 1)),
    {
        proof {
            self.lemma_valid();
        }
        if self.position < self.tokens.len() && self.position + 1 < self.tokens.len() {
            Ok(Some(&self.tokens[self.position + 1]))
        } else {
            match &self.end {
                Some(e) => Err(ParseError::LexError(e.duplicate())),
                None => Ok(None),
            }
        }
    }

    /// Consumes and returns the next token, whatever its type.
    ///
    /// Returns `UnexpectedEof` at the end of the input.
    pub fn expect_token(&mut self) -> (r: Result<Token<'src>, ParseError>)
        requires
            old(self).wf(),
        ensures
            advanced(*old(self), *final(self), 0),
            final(self).last_id() == old(self).last_id(),
            token_outcome(r, next_token(old(self).tokens(), old(self).end(), old(self).pos()), final(self).pos()),
    {
        proof {
            self.lemma_valid();
        }
        if self.position < self.tokens.len() {
            let token = self.tokens[self.position].duplicate();
            self.position = self.position + 1;
            Ok(token)
        } else {
            match &self.end {
                Some(e) => Err(ParseError::LexError(e.duplicate())),
                None => Err(ParseError::UnexpectedEof),
            }
        }
    }

    /// Consumes the next token and asserts that it is of the `expected` type.
    ///
    /// Returns the matched `Token`, or `UnexpectedTokenType` or `UnexpectedEof`.
    pub fn expect(&mut self, expected: TokenType) -> (r: Result<Token<'src>, ParseError>)
        requires
            old(self).wf(),
        ensures
            advanced(*old(self), *final(self), 0),
            final(self).last_id() == old(self).last_id(),
            token_outcome(
                r,
                expect_type(old(self).tokens(), old(self).end(), old(self).pos(), expected),
                final(self).pos(),
            ),
    {
        proof {
            self.lemma_valid();
        }
        if self.position < self.tokens.len() {
            let found = self.tokens[self.position].token_type;
            if found == expected {
                let token = self.tokens[self.position].duplicate();
                self.position = self.position + 1;
                Ok(token)
            } else {
                Err(ParseError::UnexpectedTokenType(expected, found, self.tokens[self.position].line))
            }
        } else {
            match &self.end {
                Some(e) => Err(ParseError::LexError(e.duplicate())),
                None => Err(ParseError::UnexpectedEof),
            }
        }
    }

    /// Asserts that the next token is an identifier and consumes it.
    pub fn expect_identifier(&mut self) -> (r: Result<Token<'src>, ParseError>)
        requires
            old(self).wf(),
        ensures
            advanced(*old(self), *final(self), 0),
            final(self).last_id() == old(self).last_id(),
            token_outcome(
                r,
                expect_type(old(self).tokens(), old(self).end(), old(self).pos(), TokenType::Identifier),
                final(self).pos(),
            ),
    {
        self.expect(TokenType::Identifier)
    }

    /// Consumes the next token if it is of the `expected` type.
    ///
    /// Returns whether it did; a lexical error is left where it is.
    pub fn maybe_matches(&mut self, expected: TokenType) -> (r: bool)
        requires
            old(self).wf(),
        ensures
            advanced(*old(self), *final(self), 0),
            final(self).last_id() == old(self).last_id(),
            r == next_is(old(self).tokens(), old(self).end(), old(self).pos(), expected),
            final(self).pos() == old(self).pos() + if r {
                1int
            } else {
                0int
            },
    {
        proof {
            self.lemma_valid();
        }
        if self.position < self.tokens.len() && self.tokens[self.position].token_type == expected {
            self.position = self.position + 1;
            true
        } else {
            false
        }
    }

    /// Consumes what follows an item of a parenthesised list: a comma that is not
    /// directly followed by `)`, or nothing when `)` (or the end) comes next.
    pub fn expect_separator(&mut self) -> (r: Result<(), ParseError>)
        requires
            old(self).wf(),
        ensures
            advanced(*old(self), *final(self), 0),
            final(self).last_id() == old(self).last_id(),
            match separator(old(self).tokens(), old(self).end(), old(self).pos()) {
                Separator::Next(q) => r is Ok && final(self).pos() == q,
                Separator::Stop(e) => r matches Err(err) && err@ == e,
            },
    {
        if self.maybe_matches(TokenType::Comma) {
            match self.peek() {
                Ok(Some(after)) => if after.token_type == TokenType::RightParentheses {
                    Err(ParseError::TrailingComma(after.line))
                } else {
                    Ok(())
                },
                Ok(None) => Ok(()),
                Err(e) => Err(e),
            }
        } else {
            match self.peek() {
                Ok(Some(after)) => if after.token_type != TokenType::RightParentheses {
                    Err(
                        ParseError::UnexpectedTokenType(
                            TokenType::RightParentheses,
                            after.token_type,
                            after.line,
                        ),
                    )
                } else {
                    Ok(())
                },
                Ok(None) => Ok(()),
                Err(e) => Err(e),
            }
        }
    }

    /// Issues the identifier of a new node of the syntax tree.
    pub fn next_id(&mut self) -> (r: NodeId)
        requires
            old(self).wf(),
            old(self).budget() < usize::MAX,
        ensures
            final(self).wf(),
            final(self).tokens() == old(self).tokens(),
            final(self).end() == old(self).end(),
            final(self).pos() == old(self).pos(),
            final(self).last_id() == old(self).last_id() + 1,
            r == NodeId(final(self).last_id() as usize),
    {
        self.ids.next_id()
    }
}

} // verus!
