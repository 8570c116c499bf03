//! The token stream that the parser reads: the tokens of a source, with a look at the
//! next one.

pub mod scan;
pub mod tok;

use vstd::prelude::*;
use crate::errors::err::LanguloErr;
use crate::lexer::tok::Tok;

verus! {

/// What the scanner made of a piece of the source.
#[derive(Debug, PartialEq, Eq)]
pub enum Lexeme {
    /// A token and its text.
    Token { kind: Tok, text: String },
    /// Bytes that are no token, from `start` up to `end`.
    Invalid { start: usize, end: usize },
}

/// A lexeme as a mathematical value.
pub enum Scanned {
    Token { kind: Tok, text: Seq<char> },
    Invalid { start: usize, end: usize },
}

impl View for Lexeme {
    type V = Scanned;

    open spec fn view(&self) -> Scanned {
        match *self {
            Lexeme::Token { kind, text } => Scanned::Token { kind, text: text@ },
            Lexeme::Invalid { start, end } => Scanned::Invalid { start, end },
        }
    }
}

/// A stream of tokens that supports peek.
pub struct Lexer {
    lexemes: Vec<Lexeme>,
    position: usize,
}

/// What is read at `position`: nothing at the end, an error at bytes that are no token,
/// and else the token.
pub open spec fn read_at(lexemes: Seq<Scanned>, position: int) -> Result<
    Option<(Tok, Seq<char>)>,
    LanguloErr,
> {
    if position >= lexemes.len() {
        Ok(None)
    } else {
        match lexemes[position] {
            Scanned::Token { kind, text } => Ok(Some((kind, text))),
            Scanned::Invalid { start, end } => Err(LanguloErr::Lexical { start, end }),
        }
    }
}

impl Lexer {
    /// The lexemes of the source.
    pub closed spec fn lexemes(&self) -> Seq<Scanned> {
        Seq::new(self.lexemes@.len(), |i: int| self.lexemes@[i]@)
    }

    /// How many lexemes have been read.
    pub closed spec fn position(&self) -> int {
        self.position as int
    }

    /// How many lexemes are still to be read.
    pub open spec fn remaining(&self) -> int {
        self.lexemes().len() - self.position()
    }

    /// Whether the position is in the stream or at its end.
    pub open spec fn wf(&self) -> bool {
        0 <= self.position() <= self.lexemes().len()
    }

    /// The tokens of a source, all still to be read.
    pub fn new(input: &str) -> (lexer: Lexer)
        ensures
            lexer.wf(),
            lexer.position() == 0,
            lexer.lexemes() == crate::lexer::scan::scanned(input@, 0),
    {
        Lexer::from_lexemes(crate::lexer::scan::scan(input))
    }

    /// The given lexemes, all still to be read.
    pub fn from_lexemes(lexemes: Vec<Lexeme>) -> (lexer: Lexer)
        ensures
            lexer.wf(),
            lexer.position() == 0,
            lexer.lexemes() == Seq::new(lexemes@.len(), |i: int| lexemes@[i]@),
    {
        Lexer { lexemes, position: 0 }
    }

    /// Reads the next token. Bytes that are no token are an error, and are passed over.
    pub fn next(&mut self) -> (result: Result<Option<(Tok, &str)>, LanguloErr>)
        ensures
            old(self).wf() ==> final(self).wf(),
            final(self).lexemes() == old(self).lexemes(),
            final(self).position() == if old(self).position() < old(self).lexemes().len() {
                old(self).position() + 1
            } else {
                old(self).position()
            },
            match read_at(old(self).lexemes(), old(self).position()) {
                Ok(Some((kind, text))) => result matches Ok(Some((k, t))) && k == kind && t@
                    == text,
                Ok(None) => result matches Ok(None),
                Err(e) => result matches Err(error) && error == e,
            },
    {
        if self.position >= self.lexemes.len() {
            return Ok(None);
        }
        let at = self.position;
        self.position = at + 1;
        match &self.lexemes[at] {
            Lexeme::Token { kind, text } => Ok(Some((*kind, text.as_str()))),
            Lexeme::Invalid { start, end } => Err(LanguloErr::Lexical { start: *start, end: *end }),
        }
    }

    /// Looks at the next token without reading it. Bytes that are no token are an error,
    /// and are passed over.
    pub fn peek(&mut self) -> (result: Result<Option<(Tok, &str)>, LanguloErr>)
        ensures
            old(self).wf() ==> final(self).wf(),
            final(self).lexemes() == old(self).lexemes(),
            match read_at(old(self).lexemes(), old(self).position()) {
                Ok(Some((kind, text))) => (result matches Ok(Some((k, t))) && k == kind && t@
                    == text) && final(self).position() == old(self).position(),
                Ok(None) => result matches Ok(None) && final(self).position() == old(
                    self,
                ).position(),
                Err(e) => (result matches Err(error) && error == e) && final(self).position()
                    == old(self).position() + 1,
            },
    {
        if self.position >= self.lexemes.len() {
            return Ok(None);
        }
        let at = self.position;
        match &self.lexemes[at] {
            Lexeme::Token { kind, text } => Ok(Some((*kind, text.as_str()))),
            Lexeme::Invalid { start, end } => {
                let error = LanguloErr::Lexical { start: *start, end: *end };
                self.position = at + 1;
                Err(error)
            },
        }
    }
}

} // verus!
