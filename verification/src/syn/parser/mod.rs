//! The state of the parser and its elementary steps.

use vstd::prelude::*;
use crate::syn::error::{Expected, SyntaxError};
use crate::syn::token::{Keyword, Token, TokenKind, is_keyword, kind_at};

pub mod stmt;

verus! {

/// The result of a parse: what was read and the position after it, or the
/// token that did not fit.
pub type Parsed<T> = Result<(T, int), SyntaxError>;

/// A parse that fails at token `at`.
pub open spec fn fail<T>(at: int, expected: Expected) -> Parsed<T> {
    Err(SyntaxError { at: at as usize, expected })
}

/// A parser over a list of tokens.
pub struct Parser {
    tokens: Vec<Token>,
    pos: usize,
    default_key: String,
}

/// The keyword `k` at position `i`.
pub open spec fn keyword(tokens: Seq<Token>, i: int, k: Keyword) -> Parsed<()> {
    if is_keyword(tokens, i, k) {
        Ok(((), i + 1))
    } else {
        fail(i, Expected::Keyword(k))
    }
}

/// Whether the kind is that of a token without content: a bracket, a comma,
/// a bar or a path separator.
pub open spec fn is_symbol(k: TokenKind) -> bool {
    k is OpenParen || k is CloseParen || k is Comma || k is Pipe || k is PathSeparator
}

/// The symbol `k` at position `i`.
pub open spec fn symbol(tokens: Seq<Token>, i: int, k: TokenKind, expected: Expected) -> Parsed<()> {
    if kind_at(tokens, i) == k {
        Ok(((), i + 1))
    } else {
        fail(i, expected)
    }
}

/// The name at position `i`.
pub open spec fn identifier(tokens: Seq<Token>, i: int) -> Parsed<String> {
    match kind_at(tokens, i) {
        TokenKind::Identifier(s) => Ok((s, i + 1)),
        _ => fail(i, Expected::Identifier),
    }
}

/// The text at position `i`.
pub open spec fn strand(tokens: Seq<Token>, i: int) -> Parsed<String> {
    match kind_at(tokens, i) {
        TokenKind::Strand(s) => Ok((s, i + 1)),
        _ => fail(i, Expected::Strand),
    }
}

/// The whole number from `min` to `max` at position `i`.
pub open spec fn integer(tokens: Seq<Token>, i: int, min: int, max: int) -> Parsed<i64> {
    match kind_at(tokens, i) {
        TokenKind::Integer(n) if min <= n <= max => Ok((n, i + 1)),
        _ => fail(i, Expected::Integer),
    }
}

/// The length of time at position `i`.
pub open spec fn duration(tokens: Seq<Token>, i: int) -> Parsed<u64> {
    match kind_at(tokens, i) {
        TokenKind::Duration(d) => Ok((d, i + 1)),
        _ => fail(i, Expected::Duration),
    }
}

/// The clause that says what to do where a definition exists, from position
/// `i` on: `IF NOT EXISTS`, `OVERWRITE`, or nothing. The result tells whether
/// the first and whether the second was said.
pub open spec fn exists_clause(tokens: Seq<Token>, i: int) -> Parsed<(bool, bool)> {
    if is_keyword(tokens, i, Keyword::If) {
        if !is_keyword(tokens, i + 1, Keyword::Not) {
            fail(i + 1, Expected::Keyword(Keyword::Not))
        } else if !is_keyword(tokens, i + 2, Keyword::Exists) {
            fail(i + 2, Expected::Keyword(Keyword::Exists))
        } else {
            Ok(((true, false), i + 3))
        }
    } else if is_keyword(tokens, i, Keyword::Overwrite) {
        Ok(((false, true), i + 1))
    } else {
        Ok(((false, false), i))
    }
}

impl Parser {
    /// The tokens that the parser reads.
    pub closed spec fn tokens(&self) -> Seq<Token> {
        self.tokens@
    }

    /// The position of the next token.
    pub closed spec fn pos(&self) -> int {
        self.pos as int
    }

    /// The key of the access methods whose statement gives none.
    pub closed spec fn default_key(&self) -> String {
        self.default_key
    }

    /// The invariant of the parser: it stands on a token or at the end.
    pub closed spec fn wf(&self) -> bool {
        self.pos <= self.tokens@.len()
    }

    /// Whether the parser stands where `before` stood `n` tokens ago, over
    /// the same tokens.
    pub open spec fn follows(&self, before: &Parser, to: int) -> bool {
        &&& self.wf()
        &&& self.tokens() == before.tokens()
        &&& self.default_key() == before.default_key()
        &&& self.pos() == to
    }

    /// Whether the parser reports what a parse gives: it stands after what
    /// was read, or on the token that did not fit.
    pub open spec fn reports<T>(&self, before: &Parser, r: Result<T, SyntaxError>, p: Parsed<T>) -> bool {
        match p {
            Ok((v, to)) => r == Ok::<T, SyntaxError>(v) && self.follows(before, to),
            Err(e) => r == Err::<T, SyntaxError>(e) && self.follows(before, e.at as int),
        }
    }

    /// A parser at the start of the tokens. `default_key` is the key of the
    /// access methods whose statement gives none.
    pub fn new(tokens: Vec<Token>, default_key: String) -> (r: Parser)
        ensures
            r.wf(),
            r.tokens() == tokens@,
            r.pos() == 0,
            r.default_key() == default_key,
    {
        Parser { tokens, pos: 0, default_key }
    }

    /// Goes back to the token at position `to`.
    pub fn rewind(&mut self, to: usize)
        requires
            old(self).wf(),
            to <= old(self).pos(),
        ensures
            final(self).follows(old(self), to as int),
    {
        self.pos = to;
    }

    /// A copy of the key of the access methods whose statement gives none.
    pub fn fresh_default_key(&self) -> (r: String)
        ensures
            r == self.default_key(),
    {
        self.default_key.clone()
    }

    /// The number of tokens that were read.
    pub fn position(&self) -> (r: usize)
        ensures
            r == self.pos(),
    {
        self.pos
    }

    /// The next token, which is not read.
    pub fn peek_kind(&self) -> (r: &TokenKind)
        requires
            self.wf(),
        ensures
            *r == kind_at(self.tokens(), self.pos()),
    {
        if self.pos < self.tokens.len() {
            &self.tokens[self.pos].kind
        } else {
            &TokenKind::Eof
        }
    }

    /// Reads the next token, where there is one.
    pub fn pop_peek(&mut self)
        requires
            old(self).wf(),
        ensures
            final(self).follows(
                old(self),
                if old(self).pos() < old(self).tokens().len() {
                    old(self).pos() + 1
                } else {
                    old(self).pos()
                },
            ),
    {
        if self.pos < self.tokens.len() {
            self.pos += 1;
        }
    }

    /// Reads the next token, which is there.
    fn advance(&mut self)
        requires
            old(self).wf(),
            !(kind_at(old(self).tokens(), old(self).pos()) is Eof),
        ensures
            final(self).follows(old(self), old(self).pos() + 1),
    {
        if self.pos < self.tokens.len() {
            self.pos += 1;
        }
    }

    /// Whether the next token is the keyword `k`.
    pub fn at_keyword(&self, k: Keyword) -> (r: bool)
        requires
            self.wf(),
        ensures
            r == is_keyword(self.tokens(), self.pos(), k),
    {
        match self.peek_kind() {
            TokenKind::Keyword(found) => *found == k,
            _ => false,
        }
    }

    /// Reads the next token where it is the keyword `k`, and tells whether it
    /// was.
    pub fn eat(&mut self, k: Keyword) -> (r: bool)
        requires
            old(self).wf(),
        ensures
            r == is_keyword(old(self).tokens(), old(self).pos(), k),
            final(self).follows(
                old(self),
                if r {
                    old(self).pos() + 1
                } else {
                    old(self).pos()
                },
            ),
    {
        if self.at_keyword(k) {
            self.advance();
            true
        } else {
            false
        }
    }

    /// The error that the next token is not what was looked for.
    pub fn unexpected<T>(&self, expected: Expected) -> (r: Result<T, SyntaxError>)
        ensures
            r == Err::<T, SyntaxError>(SyntaxError { at: self.pos() as usize, expected }),
    {
        Err(SyntaxError { at: self.pos, expected })
    }

    /// Reads the keyword `k`.
    pub fn expect(&mut self, k: Keyword) -> (r: Result<(), SyntaxError>)
        requires
            old(self).wf(),
        ensures
            final(self).reports(old(self), r, keyword(old(self).tokens(), old(self).pos(), k)),
    {
        if self.eat(k) {
            Ok(())
        } else {
            self.unexpected(Expected::Keyword(k))
        }
    }

    /// Reads a name.
    pub fn next_identifier(&mut self) -> (r: Result<String, SyntaxError>)
        requires
            old(self).wf(),
        ensures
            final(self).reports(old(self), r, identifier(old(self).tokens(), old(self).pos())),
    {
        let found = match self.peek_kind() {
            TokenKind::Identifier(s) => Some(s.clone()),
            _ => None,
        };
        match found {
            Some(s) => {
                self.advance();
                Ok(s)
            },
            None => self.unexpected(Expected::Identifier),
        }
    }

    /// Reads a text.
    pub fn next_strand(&mut self) -> (r: Result<String, SyntaxError>)
        requires
            old(self).wf(),
        ensures
            final(self).reports(old(self), r, strand(old(self).tokens(), old(self).pos())),
    {
        let found = match self.peek_kind() {
            TokenKind::Strand(s) => Some(s.clone()),
            _ => None,
        };
        match found {
            Some(s) => {
                self.advance();
                Ok(s)
            },
            None => self.unexpected(Expected::Strand),
        }
    }

    /// Reads a whole number from `min` to `max`.
    pub fn next_integer(&mut self, min: i64, max: i64) -> (r: Result<i64, SyntaxError>)
        requires
            old(self).wf(),
        ensures
            final(self).reports(
                old(self),
                r,
                integer(old(self).tokens(), old(self).pos(), min as int, max as int),
            ),
    {
        let found = match self.peek_kind() {
            TokenKind::Integer(n) if min <= *n && *n <= max => Some(*n),
            _ => None,
        };
        match found {
            Some(n) => {
                self.advance();
                Ok(n)
            },
            None => self.unexpected(Expected::Integer),
        }
    }

    /// Reads a length of time.
    pub fn next_duration(&mut self) -> (r: Result<u64, SyntaxError>)
        requires
            old(self).wf(),
        ensures
            final(self).reports(old(self), r, duration(old(self).tokens(), old(self).pos())),
    {
        let found = match self.peek_kind() {
            TokenKind::Duration(d) => Some(*d),
            _ => None,
        };
        match found {
            Some(d) => {
                self.advance();
                Ok(d)
            },
            None => self.unexpected(Expected::Duration),
        }
    }

    /// Reads the next token where it is the symbol `k`, and fails otherwise.
    /// `k` is a token without content.
    pub fn expect_symbol(&mut self, k: &TokenKind, expected: Expected) -> (r: Result<(), SyntaxError>)
        requires
            old(self).wf(),
            is_symbol(*k),
        ensures
            final(self).reports(
                old(self),
                r,
                symbol(old(self).tokens(), old(self).pos(), *k, expected),
            ),
    {
        if self.at_symbol(k) {
            self.advance();
            Ok(())
        } else {
            self.unexpected(expected)
        }
    }

    /// Whether the next token is the symbol `k`.
    pub fn at_symbol(&self, k: &TokenKind) -> (r: bool)
        requires
            self.wf(),
            is_symbol(*k),
        ensures
            r == (kind_at(self.tokens(), self.pos()) == *k),
    {
        match (self.peek_kind(), k) {
            (TokenKind::OpenParen, TokenKind::OpenParen) => true,
            (TokenKind::CloseParen, TokenKind::CloseParen) => true,
            (TokenKind::Comma, TokenKind::Comma) => true,
            (TokenKind::Pipe, TokenKind::Pipe) => true,
            (TokenKind::PathSeparator, TokenKind::PathSeparator) => true,
            _ => false,
        }
    }

    /// Reads the next token where it is the symbol `k`, and tells whether it
    /// was.
    pub fn eat_symbol(&mut self, k: &TokenKind) -> (r: bool)
        requires
            old(self).wf(),
            is_symbol(*k),
        ensures
            r == (kind_at(old(self).tokens(), old(self).pos()) == *k),
            final(self).follows(
                old(self),
                if r {
                    old(self).pos() + 1
                } else {
                    old(self).pos()
                },
            ),
    {
        if self.at_symbol(k) {
            self.advance();
            true
        } else {
            false
        }
    }

    /// Reads the clause that says what to do where a definition exists.
    pub fn parse_exists_clause(&mut self) -> (r: Result<(bool, bool), SyntaxError>)
        requires
            old(self).wf(),
        ensures
            final(self).reports(old(self), r, exists_clause(old(self).tokens(), old(self).pos())),
    {
        if self.eat(Keyword::If) {
            self.expect(Keyword::Not)?;
            self.expect(Keyword::Exists)?;
            Ok((true, false))
        } else if self.eat(Keyword::Overwrite) {
            Ok((false, true))
        } else {
            Ok((false, false))
        }
    }
}

} // verus!
