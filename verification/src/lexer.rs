//! Lexical analysis.
use vstd::prelude::*;

use crate::cursor::{lemma_offset_bound, lemma_offset_step, offset_of, shown, Cursor, EOF_CHAR};
use crate::span::Span;
use crate::token::{Token, TokenKind};

verus! {

/// Whether a character has the Unicode property `White_Space`: the
/// controls from tab to carriage return, the space, the next-line control,
/// the no-break space, the ogham space mark, the spaces from en quad to hair
/// space, the line and paragraph separators, the narrow no-break space, the
/// medium mathematical space and the ideographic space.
pub open spec fn white_space(c: char) -> bool {
    ||| '\u{0009}' <= c <= '\u{000D}'
    ||| c == '\u{0020}'
    ||| c == '\u{0085}'
    ||| c == '\u{00A0}'
    ||| c == '\u{1680}'
    ||| '\u{2000}' <= c <= '\u{200A}'
    ||| c == '\u{2028}'
    ||| c == '\u{2029}'
    ||| c == '\u{202F}'
    ||| c == '\u{205F}'
    ||| c == '\u{3000}'
}

/// `char::is_whitespace` tells whether the character has the Unicode
/// property `White_Space`, which the characters listed in [`white_space`]
/// have and no others.
#[verifier::external_body]
fn is_white_space(c: char) -> (b: bool)
    ensures
        b == white_space(c),
{
    c.is_whitespace()
}

/// Test whether the character is one of the blanks that separate tokens.
#[inline(always)]
pub fn is_whitespace(c: char) -> (b: bool)
    ensures
        b == (c == '\u{0020}' || c == '\u{0009}' || c == '\u{000A}' || c == '\u{000D}' || c
            == '\u{00A0}' || c == '\u{FEFF}'),
{
    c == '\u{0020}'  // space
     || c == '\u{0009}'  // tab
     || c == '\u{000A}'  // linefeed
     || c == '\u{000D}'  // carriage return
     || c == '\u{00A0}'  // no-break space
     || c == '\u{FEFF}'  // zero width no-break space
}

/// Test whether the character is a decimal digit.
#[inline(always)]
pub fn is_number(c: char) -> (b: bool)
    ensures
        b == ('0' <= c <= '9'),
{
    '0' <= c && c <= '9'
}

/// Test whether the character is a letter of the basic alphabet or an underscore.
#[inline(always)]
pub fn is_symbol(c: char) -> (b: bool)
    ensures
        b == (('a' <= c <= 'z') || ('A' <= c <= 'Z') || c == '_'),
{
    ('a' <= c && c <= 'z') || ('A' <= c && c <= 'Z') || c == '_'
}

/// The character that a cursor shows after `steps` steps.
pub open spec fn char_at(s: Seq<char>, steps: nat) -> Option<char> {
    match shown(s, steps) {
        Some((_, ch)) => Some(ch),
        None => None,
    }
}

/// The byte offset of the character that a cursor shows after `steps`
/// steps; at the end, the length of the text in bytes.
pub open spec fn start_of(s: Seq<char>, steps: nat) -> nat {
    if steps == 0 {
        0
    } else if steps <= s.len() {
        offset_of(s, steps - 1)
    } else {
        offset_of(s, s.len() as int)
    }
}

/// The byte offset of the character that the next step reads; at the end,
/// the length of the text in bytes.
pub open spec fn end_of(s: Seq<char>, steps: nat) -> nat {
    if steps <= s.len() {
        offset_of(s, steps as int)
    } else {
        offset_of(s, s.len() as int)
    }
}

/// The steps after which a cursor shows the end of the line: the first
/// linefeed from the current character on, or the end of the text.
pub open spec fn skip_line(s: Seq<char>, steps: nat) -> nat
    decreases s.len() + 1 - steps,
{
    match char_at(s, steps) {
        Some(ch) => if ch == '\n' || steps > s.len() {
            steps
        } else {
            skip_line(s, steps + 1)
        },
        None => steps,
    }
}

/// The steps after which a cursor shows the last character of the atom that
/// starts at the current character: the atom goes on until a blank, a
/// parenthesis or the end of the text comes next.
pub open spec fn atom_end(s: Seq<char>, steps: nat) -> nat
    decreases s.len() - steps,
{
    if steps < s.len() && !(white_space(s[steps as int]) || s[steps as int] == '(' || s[steps as int]
        == ')') {
        atom_end(s, steps + 1)
    } else {
        steps
    }
}

/// A token as the scan finds it.
pub struct Scanned {
    pub kind: TokenKind,
    /// The steps after which the cursor shows the first character of the token.
    pub first: nat,
    /// The steps after which the cursor shows the last character of the token.
    pub last: nat,
}

impl Scanned {
    /// The steps of the cursor once the token is made: one beyond the token.
    pub open spec fn after(self, s: Seq<char>) -> nat {
        if self.last <= s.len() {
            self.last + 1
        } else {
            self.last
        }
    }

    /// The token, with its place in the text in bytes.
    pub open spec fn token(self, s: Seq<char>) -> (TokenKind, nat, nat) {
        (self.kind, start_of(s, self.first), end_of(s, self.last))
    }
}

/// Scan for the next token, from the character that the cursor shows.
/// Blanks are passed over, and so is a comment: the rest of a line from a
/// semicolon on.
pub open spec fn scan(s: Seq<char>, steps: nat) -> Scanned
    decreases s.len() + 1 - steps,
{
    match char_at(s, steps) {
        None => Scanned { kind: TokenKind::EOF, first: steps, last: steps },
        Some(ch) => if steps > s.len() {
            Scanned { kind: TokenKind::EOF, first: steps, last: steps }
        } else if white_space(ch) {
            scan(s, steps + 1)
        } else if ch == ';' {
            let line_end = skip_line(s, steps);
            if steps < line_end <= s.len() + 1 {
                scan(s, line_end)
            } else {
                Scanned { kind: TokenKind::EOF, first: steps, last: steps }
            }
        } else if ch == '(' {
            Scanned { kind: TokenKind::LeftParen, first: steps, last: steps }
        } else if ch == ')' {
            Scanned { kind: TokenKind::RightParen, first: steps, last: steps }
        } else if ch == '\'' {
            Scanned { kind: TokenKind::QuoteMark, first: steps, last: steps }
        } else if ch == EOF_CHAR {
            Scanned { kind: TokenKind::EOF, first: steps, last: steps }
        } else {
            Scanned { kind: TokenKind::Atom, first: steps, last: atom_end(s, steps) }
        },
    }
}

/// A comment ends after its semicolon, and not beyond the end of the text.
pub proof fn lemma_skip_line(s: Seq<char>, steps: nat)
    requires
        steps <= s.len() + 1,
    ensures
        steps <= skip_line(s, steps) <= s.len() + 1,
        char_at(s, steps) matches Some(ch) && ch != '\n' && steps <= s.len() ==> steps < skip_line(
            s,
            steps,
        ),
    decreases s.len() + 1 - steps,
{
    if steps <= s.len() {
        match char_at(s, steps) {
            Some(ch) => if ch != '\n' {
                lemma_skip_line(s, steps + 1);
            },
            None => {},
        }
    }
}

/// An atom ends at or after its first character, and within the text.
pub proof fn lemma_atom_end(s: Seq<char>, steps: nat)
    requires
        steps <= s.len(),
    ensures
        steps <= atom_end(s, steps) <= s.len(),
    decreases s.len() - steps,
{
    if steps < s.len() && !(white_space(s[steps as int]) || s[steps as int] == '(' || s[steps as int]
        == ')') {
        lemma_atom_end(s, steps + 1);
    }
}

/// Offsets grow with the index.
pub proof fn lemma_offset_monotone(s: Seq<char>, i: int, j: int)
    requires
        0 <= i <= j <= s.len(),
    ensures
        offset_of(s, i) <= offset_of(s, j) <= vstd::utf8::encode_utf8(s).len(),
    decreases j - i,
{
    lemma_offset_bound(s, j);
    if i < j {
        lemma_offset_step(s, j - 1);
        lemma_offset_monotone(s, i, j - 1);
    }
}

pub struct Lexer<'a> {
    cursor: Cursor<'a>,
    /// The source text.
    source: &'a str,
    /// Byte position where the current token starts in the source.
    start_pos: usize,
    /// Copy of the previous token that was created.
    prev_token: Option<Token>,
    /// The steps after which the cursor showed the first character of the
    /// token being made.
    start_steps: Ghost<nat>,
}

impl<'a> Lexer<'a> {
    /// The text that the lexer reads.
    pub closed spec fn text(&self) -> Seq<char> {
        self.source@
    }

    /// The steps that the cursor of the lexer has taken.
    pub closed spec fn steps(&self) -> nat {
        self.cursor.steps()
    }

    /// The token that was made last.
    pub closed spec fn last_token(&self) -> Option<Token> {
        self.prev_token
    }

    /// The fields agree with each other.
    pub closed spec fn wf(&self) -> bool {
        &&& self.cursor.wf()
        &&& self.cursor.text() == self.source@
        &&& self.start_steps@ <= self.cursor.steps()
        &&& self.start_pos == start_of(self.source@, self.start_steps@)
    }

    /// Create a new lexer from the given source code.  The lexer shows
    /// the first character of the source.
    pub fn new(source: &'a str) -> (lexer: Self)
        ensures
            lexer.wf(),
            lexer.text() == source@,
            lexer.steps() == 1,
            lexer.last_token() is None,
    {
        let mut cursor = Cursor::new(source);
        // The cursor starts before the first character; the lexer starts at it.
        cursor.bump();
        proof {
            cursor.lemma_bounded();
            if source@.len() >= 1 {
                lemma_offset_monotone(source@, 0, source@.len() as int);
            }
            lemma_offset_step_zero(source@);
        }
        let start_pos: usize = match cursor.try_pos() {
            Some(pos) => pos,
            None => cursor.peek_offset(),
        };
        Self { cursor, source, start_pos, prev_token: None, start_steps: Ghost(1) }
    }

    /// The source text that the lexer reads.
    #[inline]
    pub fn source(&self) -> (source: &str)
        ensures
            source@ == self.text(),
    {
        self.source
    }

    /// The text from the current character on.
    pub fn rest(&self) -> (rest: &str)
        requires
            self.wf(),
        ensures
            rest@ == (if self.steps() == 0 {
                self.text()
            } else if self.steps() <= self.text().len() {
                self.text().subrange(self.steps() - 1, self.text().len() as int)
            } else {
                Seq::empty()
            }),
    {
        self.cursor.rest()
    }

    /// The token that was made last.
    pub fn current_token(&self) -> (token: Option<&Token>)
        ensures
            match token {
                Some(t) => self.last_token() == Some(*t),
                None => self.last_token() is None,
            },
    {
        self.prev_token.as_ref()
    }

    /// The current byte offset and character of the cursor.
    pub fn current(&self) -> (current: Option<(usize, char)>)
        requires
            self.wf(),
        ensures
            current == shown(self.text(), self.steps()),
    {
        self.cursor.try_current()
    }

    /// Indicates whether the lexer is at the end of the source.
    ///
    /// A source can hold end-of-file characters without being at its end,
    /// so this is the test to make whenever an end-of-file token is met.
    pub fn at_end(&self) -> (end: bool)
        requires
            self.wf(),
        ensures
            end == (self.steps() > self.text().len()),
    {
        self.cursor.at_end()
    }

    /// Primes the lexer to consume the next token.
    fn start_token(&mut self)
        requires
            old(self).wf(),
        ensures
            final(self).wf(),
            final(self).text() == old(self).text(),
            final(self).steps() == old(self).steps(),
            final(self).last_token() == old(self).last_token(),
            final(self).start_steps@ == old(self).steps(),
    {
        proof {
            self.cursor.lemma_bounded();
            let s = self.source@;
            let steps = self.cursor.steps();
            if 1 <= steps <= s.len() {
                lemma_offset_monotone(s, steps - 1, s.len() as int);
            }
            lemma_offset_step_zero(s);
        }
        // At the end the token starts one after the last character.
        self.start_pos = match self.cursor.try_pos() {
            Some(pos) => pos,
            None => self.cursor.peek_offset(),
        };
        self.start_steps = Ghost(self.cursor.steps());
    }

    /// Make the token that starts where the lexer was primed and ends with
    /// the current character, and step to the character after it.
    fn make_token(&mut self, kind: TokenKind) -> (token: Token)
        requires
            old(self).wf(),
        ensures
            final(self).wf(),
            final(self).text() == old(self).text(),
            final(self).last_token() == Some(token),
            token.kind == kind,
            token.span.start() == start_of(old(self).text(), old(self).start_steps@),
            token.span.end() == end_of(old(self).text(), old(self).steps()),
            final(self).steps() == (if old(self).steps() <= old(self).text().len() {
                old(self).steps() + 1
            } else {
                old(self).steps()
            }),
    {
        let start: usize = self.start_pos;  // inclusive
        let end: usize = self.cursor.peek_offset();  // exclusive
        proof {
            let s = self.source@;
            let first = self.start_steps@;
            let now = self.cursor.steps();
            let i = if first == 0 {
                0
            } else if first <= s.len() {
                first - 1
            } else {
                s.len() as int
            };
            let j = if now <= s.len() {
                now as int
            } else {
                s.len() as int
            };
            lemma_offset_monotone(s, i, j);
            lemma_offset_step_zero(s);
        }
        // A token can be empty.
        let size: usize = end - start;
        let span = Span::new(start, size);
        let token = Token { kind, span };
        // Step to the character that starts the next token.
        self.cursor.bump();
        // Keep the token for the parser to look at.
        self.prev_token = Some(token);
        token
    }

    /// Scan the source characters and construct the next token.
    #[verifier::loop_isolation(false)]
    pub fn next_token(&mut self) -> (token: Token)
        requires
            old(self).wf(),
        ensures
            final(self).wf(),
            final(self).text() == old(self).text(),
            final(self).last_token() == Some(token),
            ({
                let scanned = scan(old(self).text(), old(self).steps());
                &&& (token.kind, token.span.start(), token.span.end()) == scanned.token(
                    old(self).text(),
                )
                &&& final(self).steps() == scanned.after(old(self).text())
            }),
    {
        loop
            invariant
                self.wf(),
                self.text() == old(self).text(),
                scan(old(self).text(), old(self).steps()) == scan(self.text(), self.steps()),
            decreases self.text().len() + 1 - self.steps(),
        {
            // The cursor shows the start of the rest of the source.
            self.start_token();
            let ghost steps = self.steps();
            match self.cursor.try_char() {
                Some(ch) => {
                    if is_white_space(ch) {
                        self.cursor.bump();
                    } else if ch == ';' {
                        proof {
                            lemma_skip_line(self.text(), steps);
                        }
                        self.skip_line();
                    } else if ch == '(' {
                        return self.make_token(TokenKind::LeftParen);
                    } else if ch == ')' {
                        return self.make_token(TokenKind::RightParen);
                    } else if ch == '\'' {
                        return self.make_token(TokenKind::QuoteMark);
                    } else if ch == EOF_CHAR {
                        // The source can hold this character without
                        // being at its end.
                        return self.make_token(TokenKind::EOF);
                    } else {
                        proof {
                            lemma_atom_end(self.text(), steps);
                        }
                        return self.consume_atom();
                    }
                },
                None => {
                    return self.make_token(TokenKind::EOF);
                },
            }
        }
    }

    /// Skip over the remainder of a line: up to a linefeed or the end of the source.
    #[verifier::loop_isolation(false)]
    fn skip_line(&mut self)
        requires
            old(self).wf(),
        ensures
            final(self).wf(),
            final(self).text() == old(self).text(),
            final(self).last_token() == old(self).last_token(),
            final(self).steps() == skip_line(old(self).text(), old(self).steps()),
    {
        loop
            invariant
                self.wf(),
                self.text() == old(self).text(),
                self.last_token() == old(self).last_token(),
                skip_line(old(self).text(), old(self).steps()) == skip_line(
                    self.text(),
                    self.steps(),
                ),
            decreases self.text().len() + 1 - self.steps(),
        {
            match self.cursor.try_char() {
                Some(ch) => {
                    if ch == '\n' {
                        return ;
                    } else {
                        self.cursor.bump();
                    }
                },
                None => {
                    return ;
                },
            }
        }
    }

    /// Consume an atom: all up to a blank, a parenthesis or the end of the source.
    #[verifier::loop_isolation(false)]
    fn consume_atom(&mut self) -> (token: Token)
        requires
            old(self).wf(),
            1 <= old(self).steps() <= old(self).text().len(),
            old(self).start_steps@ == old(self).steps(),
        ensures
            final(self).wf(),
            final(self).text() == old(self).text(),
            final(self).last_token() == Some(token),
            token.kind == TokenKind::Atom,
            token.span.start() == start_of(old(self).text(), old(self).steps()),
            token.span.end() == end_of(
                old(self).text(),
                atom_end(old(self).text(), old(self).steps()),
            ),
            final(self).steps() == atom_end(old(self).text(), old(self).steps()) + 1,
    {
        proof {
            lemma_atom_end(self.text(), self.steps());
        }
        let mut more: bool = true;
        while more
            invariant
                self.wf(),
                self.text() == old(self).text(),
                self.start_steps@ == old(self).steps(),
                old(self).steps() <= self.steps() <= self.text().len(),
                atom_end(old(self).text(), old(self).steps()) == atom_end(
                    self.text(),
                    self.steps(),
                ),
                !more ==> atom_end(self.text(), self.steps()) == self.steps(),
            decreases self.text().len() - self.steps(), (if more { 1nat } else { 0nat }),
        {
            match self.cursor.peek_char() {
                Some(ch) => {
                    if is_white_space(ch) || ch == '(' || ch == ')' {
                        more = false;
                    } else {
                        self.cursor.bump();
                    }
                },
                None => {
                    more = false;
                },
            }
        }
        self.make_token(TokenKind::Atom)
    }
}

/// The first offset is 0.
proof fn lemma_offset_step_zero(s: Seq<char>)
    ensures
        offset_of(s, 0) == 0,
{
    assert(s.subrange(0, 0) =~= Seq::<char>::empty());
}

/// Walks a lexer to the end of its source, and then yields the one
/// end-of-file token that stands for the end.
pub struct LexerIter<'a> {
    // Track the end so that one end-of-file token is yielded there.
    done: bool,
    lexer: Lexer<'a>,
}

impl<'a> LexerIter<'a> {
    /// The lexer that the iterator walks.
    pub closed spec fn lexer(&self) -> Lexer<'a> {
        self.lexer
    }

    /// Whether the token for the end of the source has been yielded.
    pub closed spec fn finished(&self) -> bool {
        self.done
    }

    pub fn new(lexer: Lexer<'a>) -> (iter: Self)
        ensures
            iter.lexer() == lexer,
            !iter.finished(),
    {
        LexerIter { lexer, done: false }
    }

    /// The next token, or nothing once the end of the source has been told.
    pub fn next(&mut self) -> (token: Option<Token>)
        requires
            old(self).lexer().wf(),
        ensures
            final(self).lexer().wf(),
            final(self).lexer().text() == old(self).lexer().text(),
            token is None <==> old(self).lexer().steps() > old(self).lexer().text().len() && old(
                self,
            ).finished(),
            token is None ==> final(self).lexer().steps() == old(self).lexer().steps()
                && final(self).finished(),
            token matches Some(t) ==> {
                let scanned = scan(old(self).lexer().text(), old(self).lexer().steps());
                &&& (t.kind, t.span.start(), t.span.end()) == scanned.token(
                    old(self).lexer().text(),
                )
                &&& final(self).lexer().steps() == scanned.after(old(self).lexer().text())
                &&& final(self).finished() == (old(self).finished() || old(self).lexer().steps()
                    > old(self).lexer().text().len())
            },
    {
        if self.lexer.at_end() {
            if self.done {
                None
            } else {
                self.done = true;
                Some(self.lexer.next_token())
            }
        } else {
            Some(self.lexer.next_token())
        }
    }
}

impl<'a> Lexer<'a> {
    /// The iterator over the tokens of the lexer.
    pub fn into_iter(self) -> (iter: LexerIter<'a>)
        ensures
            iter.lexer() == self,
            !iter.finished(),
    {
        LexerIter::new(self)
    }
}

} // verus!
