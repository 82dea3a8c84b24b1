//! Tokens produced by the lexer.
use vstd::prelude::*;

use vstd::string::StringSliceAdditionalSpecFns;
use vstd::utf8::decode_utf8;

use crate::span::Span;
use crate::text::{sliceable, str_get};

verus! {

#[derive(Debug, PartialEq, Eq, Clone, Copy, Structural)]
pub enum TokenKind {
    LeftParen,
    RightParen,
    Atom,
    QuoteMark,
    EOF,
}

#[derive(Debug, Clone, Copy, PartialEq, Eq, Structural)]
pub struct Token {
    pub kind: TokenKind,
    pub span: Span,
}

/// What a token is to the parser: its kind and its place in the source, as
/// byte offsets.
pub struct TokenView {
    pub kind: TokenKind,
    pub start: nat,
    pub end: nat,
}

impl View for Token {
    type V = TokenView;

    open spec fn view(&self) -> TokenView {
        TokenView { kind: self.kind, start: self.span.start(), end: self.span.end() }
    }
}

/// The text between two byte offsets of a source with the given UTF-8
/// encoding, if a part of the source can be taken there.
pub open spec fn fragment_of(bytes: Seq<u8>, start: nat, end: nat) -> Option<Seq<char>> {
    if sliceable(bytes, start as int, end as int) {
        Some(decode_utf8(bytes.subrange(start as int, end as int)))
    } else {
        None
    }
}

impl Token {
    /// The text of the token in the source.  The token has to lie within
    /// the source, at character boundaries.
    pub fn fragment<'a>(&self, source: &'a str) -> (text: &'a str)
        requires
            fragment_of(source.spec_bytes(), self@.start, self@.end) is Some,
        ensures
            Some(text@) == fragment_of(source.spec_bytes(), self@.start, self@.end),
    {
        match self.try_fragment(source) {
            Some(text) => text,
            None => vstd::pervasive::unreached(),
        }
    }

    /// The text of the token in the source, if the token lies within the
    /// source, at character boundaries.
    pub fn try_fragment<'a>(&self, source: &'a str) -> (text: Option<&'a str>)
        ensures
            match text {
                Some(t) => Some(t@) == fragment_of(source.spec_bytes(), self@.start, self@.end),
                None => fragment_of(source.spec_bytes(), self@.start, self@.end) is None,
            },
    {
        broadcast use vstd::utf8::encode_utf8_decode_utf8;

        let text = str_get(source, self.span.low(), self.span.high());
        proof {
            match text {
                Some(t) => {
                    assert(decode_utf8(t.spec_bytes()) == t@);
                },
                None => {},
            }
        }
        text
    }
}

} // verus!
