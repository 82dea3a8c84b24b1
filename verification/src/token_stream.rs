//! Token stream: the tokens of a lexer, with one token of lookahead.
use vstd::prelude::*;

use crate::error::{Error, ErrorView};
use crate::lexer::{scan, Lexer, LexerIter};
use crate::token::{Token, TokenKind};

verus! {

pub struct TokenStream<'a> {
    lexer: LexerIter<'a>,
    /// The token that was looked at and not taken yet; inside, nothing
    /// stands for the end of the tokens.
    peeked: Option<Option<Token>>,
}

impl<'a> TokenStream<'a> {
    /// The iterator that the stream takes its tokens from.
    pub closed spec fn source(&self) -> LexerIter<'a> {
        self.lexer
    }

    /// The token that was looked at and not taken yet.
    pub closed spec fn buffered(&self) -> Option<Option<Token>> {
        self.peeked
    }

    /// The fields agree with each other.
    pub closed spec fn wf(&self) -> bool {
        self.lexer.lexer().wf()
    }

    pub fn from_lexer(lexer: Lexer<'a>) -> (stream: Self)
        requires
            lexer.wf(),
        ensures
            stream.wf(),
            stream.source().lexer() == lexer,
            !stream.source().finished(),
            stream.buffered() is None,
    {
        Self { lexer: lexer.into_iter(), peeked: None }
    }

    /// Take the next token: the one that was looked at, if there is one,
    /// else the next of the lexer.
    #[inline]
    pub fn next_token(&mut self) -> (token: Option<Token>)
        requires
            old(self).wf(),
        ensures
            final(self).wf(),
            final(self).buffered() is None,
            old(self).buffered() matches Some(t) ==> token == t && final(self).source() == old(
                self,
            ).source(),
            old(self).buffered() is None ==> yields(old(self).source(), final(self).source(), token),
    {
        match self.peeked {
            Some(token) => {
                self.peeked = None;
                token
            },
            None => self.lexer.next(),
        }
    }

    /// Return the current token and advance the cursor.
    ///
    /// The token has to be of the given kind; a token of another kind is
    /// not taken, and the error tells both kinds.
    pub fn consume(&mut self, token_kind: TokenKind) -> (token: Result<Token, Error>)
        requires
            old(self).wf(),
        ensures
            final(self).wf(),
            match token {
                Ok(t) => t.kind == token_kind && final(self).buffered() is None,
                Err(e) => final(self).buffered() is Some && (match final(self).buffered()->0 {
                    Some(t) => t.kind != token_kind && e@ == (ErrorView::TokenError {
                        expected: token_kind,
                        actual: t.kind,
                    }),
                    None => e@ == ErrorView::UnexpectedEOF,
                }),
            },
            old(self).buffered() is Some ==> final(self).source() == old(self).source() && (
            token matches Ok(t) ==> old(self).buffered() == Some(Some(t))) && (token is Err
                ==> final(self).buffered() == old(self).buffered()),
            old(self).buffered() is None ==> yields(
                old(self).source(),
                final(self).source(),
                match token {
                    Ok(t) => Some(t),
                    Err(_) => final(self).buffered()->0,
                },
            ),
    {
        // The token is not taken if the kinds differ.
        match self.peek() {
            Some(token) => {
                if token.kind == token_kind {
                    self.peeked = None;
                    Ok(token)
                } else {
                    Err(Error::TokenError { expected: token_kind, actual: token.kind })
                }
            },
            None => Err(Error::UnexpectedEOF),
        }
    }

    /// Whether the next token is the end-of-file token, or there is none.
    #[inline]
    pub fn at_end(&mut self) -> (end: bool)
        requires
            old(self).wf(),
        ensures
            final(self).wf(),
            final(self).buffered() is Some,
            end == (match final(self).buffered()->0 {
                Some(t) => t.kind == TokenKind::EOF,
                None => true,
            }),
            old(self).buffered() is Some ==> final(self).source() == old(self).source()
                && final(self).buffered() == old(self).buffered(),
            old(self).buffered() is None ==> yields(
                old(self).source(),
                final(self).source(),
                final(self).buffered()->0,
            ),
    {
        match self.peek_kind() {
            Some(TokenKind::EOF) => true,
            None => true,
            Some(_) => false,
        }
    }

    /// Return the next token without advancing the cursor.
    #[inline]
    pub fn peek(&mut self) -> (token: Option<Token>)
        requires
            old(self).wf(),
        ensures
            final(self).wf(),
            final(self).buffered() == Some(token),
            old(self).buffered() is Some ==> final(self).source() == old(self).source()
                && final(self).buffered() == old(self).buffered(),
            old(self).buffered() is None ==> yields(old(self).source(), final(self).source(), token),
    {
        match self.peeked {
            Some(token) => token,
            None => {
                let token = self.lexer.next();
                self.peeked = Some(token);
                token
            },
        }
    }

    /// Return the kind of the next token without advancing the cursor.
    #[inline]
    pub fn peek_kind(&mut self) -> (kind: Option<TokenKind>)
        requires
            old(self).wf(),
        ensures
            final(self).wf(),
            final(self).buffered() is Some,
            kind == (match final(self).buffered()->0 {
                Some(t) => Some(t.kind),
                None => None,
            }),
            old(self).buffered() is Some ==> final(self).source() == old(self).source()
                && final(self).buffered() == old(self).buffered(),
            old(self).buffered() is None ==> yields(
                old(self).source(),
                final(self).source(),
                final(self).buffered()->0,
            ),
    {
        match self.peek() {
            Some(token) => Some(token.kind),
            None => None,
        }
    }
}

/// Whether `token` is what the iterator yields next, and `after` the
/// iterator once it has: the next token that the scan of the source finds,
/// or nothing once the end of the source has been told.
pub open spec fn yields<'a>(before: LexerIter<'a>, after: LexerIter<'a>, token: Option<Token>) -> bool {
    let text = before.lexer().text();
    let steps = before.lexer().steps();
    &&& after.lexer().wf()
    &&& after.lexer().text() == text
    &&& token is None <==> steps > text.len() && before.finished()
    &&& token is None ==> after.lexer().steps() == steps && after.finished()
    &&& token matches Some(t) ==> {
        let scanned = scan(text, steps);
        &&& (t.kind, t.span.start(), t.span.end()) == scanned.token(text)
        &&& after.lexer().steps() == scanned.after(text)
        &&& after.finished() == (before.finished() || steps > text.len())
    }
}

} // verus!
