//! Parser: from source text to a tree of expressions.
//!
//! Numbers are read by the host.  The parser is handed the value of each
//! atom that starts with a digit, in the order of the source.
use vstd::prelude::*;
use vstd::string::{StrSliceExecFns, StringExecFns, StringSliceAdditionalSpecFns};

use crate::error::{Error, ErrorView, ParseError};
use crate::expr::{group_views, views, Expr, ExprView, Keyword};
use crate::ext::StringExt;
use crate::lexer::{scan, Lexer};
use crate::smol::smol_new;
use crate::span::Span;
use crate::text::str_eq;
use crate::token::{fragment_of, Token, TokenKind, TokenView};

verus! {

broadcast use group_views;

/// The tokens of a text from the character that a cursor shows after
/// `steps` steps, up to the first end-of-file token.
pub open spec fn tokens_from(s: Seq<char>, steps: nat) -> Seq<TokenView>
    decreases s.len() + 1 - steps,
{
    let scanned = scan(s, steps);
    let (kind, start, end) = scanned.token(s);
    let token = TokenView { kind, start, end };
    if kind == TokenKind::EOF || scanned.after(s) <= steps || scanned.after(s) > s.len() + 1 {
        seq![token]
    } else {
        seq![token] + tokens_from(s, scanned.after(s))
    }
}

/// The tokens of a source, as the parser sees them.
pub open spec fn token_views(tokens: Seq<Token>) -> Seq<TokenView> {
    Seq::new(tokens.len(), |i: int| tokens[i]@)
}

/// A scan finds its token at or after the character it starts from.  A
/// token other than the end-of-file token lies within the text, and the
/// cursor is beyond it once it is made.
pub proof fn lemma_scan(s: Seq<char>, steps: nat)
    requires
        steps <= s.len() + 1,
    ensures
        steps <= scan(s, steps).first <= scan(s, steps).last <= s.len() + 1,
        steps <= scan(s, steps).after(s) <= s.len() + 1,
        scan(s, steps).kind != TokenKind::EOF ==> steps < scan(s, steps).after(s),
        steps > s.len() ==> scan(s, steps).kind == TokenKind::EOF,
    decreases s.len() + 1 - steps,
{
    match crate::lexer::char_at(s, steps) {
        None => {},
        Some(ch) => if steps <= s.len() {
            if crate::lexer::white_space(ch) {
                lemma_scan(s, steps + 1);
            } else if ch == ';' {
                crate::lexer::lemma_skip_line(s, steps);
                let line_end = crate::lexer::skip_line(s, steps);
                if steps < line_end <= s.len() + 1 {
                    lemma_scan(s, line_end);
                }
            } else if ch == '(' || ch == ')' || ch == '\'' || ch == crate::cursor::EOF_CHAR {
            } else {
                if steps >= 1 {
                    crate::lexer::lemma_atom_end(s, steps);
                }
            }
        },
    }
}

/// The tokens of a source, up to the first end-of-file token.
#[verifier::loop_isolation(false)]
pub fn tokenize(source: &str) -> (tokens: Vec<Token>)
    ensures
        token_views(tokens@) == tokens_from(source@, 1),
{
    let mut lexer = Lexer::new(source);
    let mut tokens: Vec<Token> = Vec::new();
    let mut open: bool = true;
    assert(token_views(tokens@) + tokens_from(source@, 1) =~= tokens_from(source@, 1));
    while open
        invariant
            lexer.wf(),
            lexer.text() == source@,
            1 <= lexer.steps() <= source@.len() + 1,
            open ==> tokens_from(source@, 1) == token_views(tokens@) + tokens_from(
                source@,
                lexer.steps(),
            ),
            !open ==> tokens_from(source@, 1) == token_views(tokens@),
        decreases source@.len() + 1 - lexer.steps(), (if open { 1nat } else { 0nat }),
    {
        let ghost steps = lexer.steps();
        let ghost before = token_views(tokens@);
        proof {
            lemma_scan(source@, steps);
        }
        let token = lexer.next_token();
        tokens.push(token);
        proof {
            assert(token_views(tokens@) =~= before + seq![token@]);
        }
        match token.kind {
            TokenKind::EOF => {
                open = false;
            },
            _ => {
                assert(token_views(tokens@) + tokens_from(source@, lexer.steps()) =~= before
                    + tokens_from(source@, steps));
            },
        }
    }
    tokens
}

/// Whether a character is a decimal digit.
pub open spec fn is_digit(c: char) -> bool {
    '0' <= c <= '9'
}

/// Whether an identifier can start with the character.
pub open spec fn starts_identifier(c: char) -> bool {
    c == '+' || c == '-' || c == '*' || c == '=' || c == '<' || c == '>' || ('a' <= c <= 'z')
}

/// What an atom is, going by its text.
pub enum Atom {
    /// A literal or an identifier.
    Value(ExprView),
    /// A number, whose value the host reads.
    Number,
    /// No atom.
    Invalid(ParseError),
}

/// What the atom with the given text is.
pub open spec fn atom_of(text: Seq<char>) -> Atom {
    if text.len() == 0 {
        Atom::Invalid(ParseError::ExpectedAtom)
    } else if is_digit(text[0]) {
        Atom::Number
    } else if text[0] == '#' {
        if text.len() > 1 && text[1] == 't' {
            Atom::Value(ExprView::Bool(true))
        } else if text.len() > 1 && text[1] == 'f' {
            Atom::Value(ExprView::Bool(false))
        } else if text.subrange(1, text.len() as int) == "void"@ {
            Atom::Value(ExprView::Void)
        } else {
            Atom::Invalid(ParseError::UnknownAtom)
        }
    } else if text[0] == '"' {
        if text.len() >= 2 && text.last() == '"' {
            Atom::Value(ExprView::String(text.subrange(1, text.len() - 1)))
        } else {
            Atom::Invalid(ParseError::UnterminatedString)
        }
    } else if text[0] == '.' && text.len() == 1 {
        Atom::Value(ExprView::Keyword(Keyword::Dot))
    } else if starts_identifier(text[0]) {
        Atom::Value(ExprView::Ident(text))
    } else {
        Atom::Invalid(ParseError::UnexpectedCharacter(text[0]))
    }
}

/// What the parser works on and where it is.
pub struct ParserView {
    /// The UTF-8 encoding of the source.
    pub bytes: Seq<u8>,
    pub tokens: Seq<TokenView>,
    /// The values of the atoms that start with a digit, in the order of the
    /// source; nothing for an atom that is no number.
    pub numbers: Seq<Option<u64>>,
    /// The index of the current token.
    pub pos: nat,
    /// The index of the value of the next atom that starts with a digit.
    pub next_number: nat,
}

/// The result of a step of the parser: the state after it, and the
/// expression or the error.
pub struct Parsed {
    pub p: ParserView,
    pub result: Result<ExprView, ErrorView>,
}

/// A step that failed.
pub open spec fn rejected(p: ParserView, error: ParseError) -> Parsed {
    Parsed { p, result: Err(ErrorView::Parse(error)) }
}

/// The parser one token further.
pub open spec fn advanced(p: ParserView) -> ParserView {
    ParserView { pos: p.pos + 1, ..p }
}

/// Parse the atom that the token before the current one is.
pub open spec fn parse_atom(p: ParserView, token: TokenView) -> Parsed {
    match fragment_of(p.bytes, token.start, token.end) {
        None => rejected(p, ParseError::ExpectedAtom),
        Some(text) => match atom_of(text) {
            Atom::Value(value) => Parsed { p, result: Ok(value) },
            Atom::Number => if p.next_number < p.numbers.len() {
                let q = ParserView { next_number: p.next_number + 1, ..p };
                match p.numbers[p.next_number as int] {
                    Some(bits) => Parsed { p: q, result: Ok(ExprView::Number(bits)) },
                    None => rejected(q, ParseError::InvalidNumber),
                }
            } else {
                rejected(p, ParseError::InvalidNumber)
            },
            Atom::Invalid(error) => rejected(p, error),
        },
    }
}

/// Parse one expression, from the current token on.
pub open spec fn parse_expr(p: ParserView) -> Parsed
    decreases p.tokens.len() - p.pos, 1nat,
{
    if p.pos >= p.tokens.len() {
        rejected(p, ParseError::UnexpectedEnd)
    } else {
        let token = p.tokens[p.pos as int];
        let q = advanced(p);
        match token.kind {
            TokenKind::LeftParen => parse_list(q, Seq::empty()),
            TokenKind::EOF => rejected(q, ParseError::UnexpectedEOF),
            TokenKind::RightParen => rejected(q, ParseError::UnexpectedRightParen),
            TokenKind::QuoteMark => {
                let quoted = parse_expr(q);
                match quoted.result {
                    Ok(e) => Parsed { p: quoted.p, result: Ok(ExprView::Quote(Box::new(e))) },
                    Err(_) => quoted,
                }
            },
            TokenKind::Atom => parse_atom(q, token),
        }
    }
}

/// Parse the items of a list up to its closing parenthesis; `items` are
/// the items parsed so far.
pub open spec fn parse_list(p: ParserView, items: Seq<ExprView>) -> Parsed
    decreases p.tokens.len() - p.pos, 2nat,
{
    if p.pos >= p.tokens.len() {
        Parsed { p, result: Ok(ExprView::List(items)) }
    } else {
        match p.tokens[p.pos as int].kind {
            TokenKind::RightParen => Parsed { p: advanced(p), result: Ok(ExprView::List(items)) },
            TokenKind::EOF => rejected(p, ParseError::UnexpectedEOF),
            _ => {
                let item = parse_expr(p);
                match item.result {
                    Ok(e) => if p.pos < item.p.pos <= p.tokens.len() && item.p.tokens == p.tokens {
                        parse_list(item.p, items.push(e))
                    } else {
                        item
                    },
                    Err(_) => item,
                }
            },
        }
    }
}

/// Parse the forms of a program up to the end of the source; `items` are
/// the forms parsed so far.
pub open spec fn parse_sequence(p: ParserView, items: Seq<ExprView>) -> Parsed
    decreases p.tokens.len() - p.pos,
{
    if p.pos >= p.tokens.len() || p.tokens[p.pos as int].kind == TokenKind::EOF {
        Parsed { p, result: Ok(ExprView::Sequence(items)) }
    } else {
        let item = parse_expr(p);
        match item.result {
            Ok(e) => if p.pos < item.p.pos <= p.tokens.len() && item.p.tokens == p.tokens {
                parse_sequence(item.p, items.push(e))
            } else {
                item
            },
            Err(_) => item,
        }
    }
}

/// An expression moves the parser on and leaves the source and its tokens alone.
pub proof fn lemma_progress(p: ParserView)
    ensures
        parse_expr(p).p.tokens == p.tokens,
        parse_expr(p).p.bytes == p.bytes,
        parse_expr(p).p.numbers == p.numbers,
        parse_expr(p).result is Ok ==> parse_expr(p).p.pos > p.pos,
        parse_expr(p).p.pos >= p.pos,
        parse_expr(p).p.pos <= p.tokens.len() || parse_expr(p).p.pos == p.pos,
    decreases p.tokens.len() - p.pos, 1nat,
{
    if p.pos < p.tokens.len() {
        let token = p.tokens[p.pos as int];
        let q = advanced(p);
        match token.kind {
            TokenKind::LeftParen => lemma_list_progress(q, Seq::empty()),
            TokenKind::QuoteMark => lemma_progress(q),
            _ => {},
        }
    }
}

/// A list moves the parser on and leaves the source and its tokens alone.
pub proof fn lemma_list_progress(p: ParserView, items: Seq<ExprView>)
    requires
        p.pos <= p.tokens.len(),
    ensures
        parse_list(p, items).p.tokens == p.tokens,
        parse_list(p, items).p.bytes == p.bytes,
        parse_list(p, items).p.numbers == p.numbers,
        parse_list(p, items).p.pos >= p.pos,
        parse_list(p, items).p.pos <= p.tokens.len(),
    decreases p.tokens.len() - p.pos, 2nat,
{
    if p.pos < p.tokens.len() {
        match p.tokens[p.pos as int].kind {
            TokenKind::RightParen => {},
            TokenKind::EOF => {},
            _ => {
                lemma_progress(p);
                let item = parse_expr(p);
                match item.result {
                    Ok(e) => {
                        lemma_list_progress(item.p, items.push(e));
                    },
                    Err(_) => {},
                }
            },
        }
    }
}

pub struct Parser<'a> {
    source: &'a str,
    tokens: &'a Vec<Token>,
    numbers: &'a Vec<Option<u64>>,
    /// The index of the current token.
    pos: usize,
    /// The index of the value of the next atom that starts with a digit.
    next_number: usize,
}

impl<'a> View for Parser<'a> {
    type V = ParserView;

    closed spec fn view(&self) -> ParserView {
        ParserView {
            bytes: self.source.spec_bytes(),
            tokens: token_views(self.tokens@),
            numbers: self.numbers@,
            pos: self.pos as nat,
            next_number: self.next_number as nat,
        }
    }
}

/// Whether an executable step of the parser did what the grammar says.
pub open spec fn parsed_as(done: Result<Expr, Error>, p: ParserView, expected: Parsed) -> bool {
    &&& p == expected.p
    &&& match done {
        Ok(e) => expected.result == Ok::<ExprView, ErrorView>(e@),
        Err(error) => expected.result == Err::<ExprView, ErrorView>(error@),
    }
}

impl<'a> Parser<'a> {
    /// A parser at the first token.
    pub fn new(source: &'a str, tokens: &'a Vec<Token>, numbers: &'a Vec<Option<u64>>) -> (parser:
        Self)
        ensures
            parser@ == (ParserView {
                bytes: source.spec_bytes(),
                tokens: token_views(tokens@),
                numbers: numbers@,
                pos: 0,
                next_number: 0,
            }),
    {
        Parser { source, tokens, numbers, pos: 0, next_number: 0 }
    }

    /// The current token.
    fn current_token(&self) -> (token: Option<Token>)
        ensures
            token is Some <==> self@.pos < self@.tokens.len(),
            token matches Some(t) ==> t@ == self@.tokens[self@.pos as int],
    {
        if self.pos < self.tokens.len() {
            Some(self.tokens[self.pos])
        } else {
            None
        }
    }

    /// Move to the next token.
    fn next_token(&mut self)
        requires
            old(self)@.pos < old(self)@.tokens.len(),
        ensures
            final(self)@ == advanced(old(self)@),
    {
        if self.pos < self.tokens.len() {
            self.pos = self.pos + 1;
        }
    }

    /// Parse the forms of a program.
    #[verifier::loop_isolation(false)]
    fn parse_sequence(&mut self) -> (done: Result<Expr, Error>)
        requires
            old(self)@.pos <= old(self)@.tokens.len(),
        ensures
            parsed_as(done, final(self)@, parse_sequence(old(self)@, Seq::empty())),
    {
        let mut expressions: Vec<Expr> = Vec::new();
        assert(views(expressions@) =~= Seq::empty());
        loop
            invariant
                self@.pos <= self@.tokens.len(),
                parse_sequence(old(self)@, Seq::empty()) == parse_sequence(
                    self@,
                    views(expressions@),
                ),
            decreases self@.tokens.len() - self@.pos,
        {
            match self.current_token() {
                Some(token) => {
                    match token.kind {
                        TokenKind::EOF => {
                            return Ok(Expr::Sequence(expressions));
                        },
                        _ => {},
                    }
                },
                None => {
                    return Ok(Expr::Sequence(expressions));
                },
            }
            proof {
                lemma_progress(self@);
            }
            let expr = self.parse_expr()?;
            expressions.push(expr);
        }
    }

    /// Parse one expression.
    fn parse_expr(&mut self) -> (done: Result<Expr, Error>)
        requires
            old(self)@.pos <= old(self)@.tokens.len(),
        ensures
            parsed_as(done, final(self)@, parse_expr(old(self)@)),
            final(self)@.pos <= final(self)@.tokens.len(),
        decreases old(self)@.tokens.len() - old(self)@.pos, 1nat,
    {
        let token = match self.current_token() {
            Some(token) => token,
            None => {
                return Err(Error::Parse(ParseError::UnexpectedEnd));
            },
        };
        self.next_token();
        match token.kind {
            TokenKind::LeftParen => self.parse_list(),
            TokenKind::EOF => Err(Error::Parse(ParseError::UnexpectedEOF)),
            TokenKind::RightParen => Err(Error::Parse(ParseError::UnexpectedRightParen)),
            TokenKind::QuoteMark => self.parse_quote(),
            TokenKind::Atom => self.parse_atom(token),
        }
    }

    /// Parse the items of a list, up to its closing parenthesis.
    #[verifier::loop_isolation(false)]
    fn parse_list(&mut self) -> (done: Result<Expr, Error>)
        requires
            old(self)@.pos <= old(self)@.tokens.len(),
        ensures
            parsed_as(done, final(self)@, parse_list(old(self)@, Seq::empty())),
            final(self)@.pos <= final(self)@.tokens.len(),
        decreases old(self)@.tokens.len() - old(self)@.pos, 2nat,
    {
        let mut expressions: Vec<Expr> = Vec::new();
        assert(views(expressions@) =~= Seq::empty());
        loop
            invariant
                old(self)@.pos <= self@.pos <= self@.tokens.len(),
                self@.tokens.len() == old(self)@.tokens.len(),
                parse_list(old(self)@, Seq::empty()) == parse_list(self@, views(expressions@)),
            decreases self@.tokens.len() - self@.pos,
        {
            match self.current_token() {
                Some(token) => {
                    match token.kind {
                        TokenKind::RightParen => {
                            self.next_token();
                            return Ok(Expr::List(expressions));
                        },
                        TokenKind::EOF => {
                            return Err(Error::Parse(ParseError::UnexpectedEOF));
                        },
                        _ => {},
                    }
                },
                None => {
                    return Ok(Expr::List(expressions));
                },
            }
            proof {
                lemma_progress(self@);
            }
            let expr = self.parse_expr()?;
            expressions.push(expr);
        }
    }

    /// Parse the expression after a quote mark.
    fn parse_quote(&mut self) -> (done: Result<Expr, Error>)
        requires
            old(self)@.pos <= old(self)@.tokens.len(),
        ensures
            match parse_expr(old(self)@).result {
                Ok(e) => done matches Ok(q) && q@ == ExprView::Quote(Box::new(e)),
                Err(error) => done matches Err(r) && r@ == error,
            },
            final(self)@ == parse_expr(old(self)@).p,
            final(self)@.pos <= final(self)@.tokens.len(),
        decreases old(self)@.tokens.len() - old(self)@.pos, 2nat,
    {
        match self.parse_expr() {
            Ok(expr) => Ok(Expr::Quote(Box::new(expr))),
            Err(error) => Err(error),
        }
    }

    /// Parse an atom.
    fn parse_atom(&mut self, token: Token) -> (done: Result<Expr, Error>)
        ensures
            parsed_as(done, final(self)@, parse_atom(old(self)@, token@)),
            final(self)@.pos == old(self)@.pos,
    {
        let fragment = match token.try_fragment(self.source) {
            Some(fragment) => fragment,
            None => {
                return Err(Error::Parse(ParseError::ExpectedAtom));
            },
        };
        match fragment.split_first_char() {
            Some((ch, rest)) => {
                if '0' <= ch && ch <= '9' {
                    self.parse_number()
                } else if ch == '#' {
                    match rest.first() {
                        Some('t') => Ok(Expr::Bool(true)),
                        Some('f') => Ok(Expr::Bool(false)),
                        _ => {
                            if str_eq(rest, "void") {
                                Ok(Expr::Void)
                            } else {
                                Err(Error::Parse(ParseError::UnknownAtom))
                            }
                        },
                    }
                } else if ch == '"' {
                    parse_string(fragment)
                } else if ch == '.' && rest.unicode_len() == 0 {
                    Ok(Expr::Keyword(Keyword::Dot))
                } else if ch == '+' || ch == '-' || ch == '*' || ch == '=' || ch == '<' || ch
                    == '>' || ('a' <= ch && ch <= 'z') {
                    Ok(parse_identifier(fragment))
                } else {
                    Err(Error::Parse(ParseError::UnexpectedCharacter(ch)))
                }
            },
            None => Err(Error::Parse(ParseError::ExpectedAtom)),
        }
    }

    /// Take the value that the host read for the next atom that starts
    /// with a digit.
    fn parse_number(&mut self) -> (done: Result<Expr, Error>)
        ensures
            final(self)@.pos == old(self)@.pos,
            final(self)@.bytes == old(self)@.bytes,
            final(self)@.tokens == old(self)@.tokens,
            final(self)@.numbers == old(self)@.numbers,
            old(self)@.next_number < old(self)@.numbers.len() ==> final(self)@.next_number == old(
                self,
            )@.next_number + 1,
            old(self)@.next_number >= old(self)@.numbers.len() ==> final(self)@.next_number
                == old(self)@.next_number,
            match done {
                Ok(e) => old(self)@.next_number < old(self)@.numbers.len() && Some(e@) == (
                match old(self)@.numbers[old(self)@.next_number as int] {
                    Some(bits) => Some(ExprView::Number(bits)),
                    None => None,
                }),
                Err(error) => error@ == ErrorView::Parse(ParseError::InvalidNumber) && (old(
                    self,
                )@.next_number >= old(self)@.numbers.len() || old(self)@.numbers[old(
                    self,
                )@.next_number as int] is None),
            },
    {
        if self.next_number < self.numbers.len() {
            let number = self.numbers[self.next_number];
            self.next_number = self.next_number + 1;
            match number {
                Some(bits) => Ok(Expr::Number(bits)),
                None => Err(Error::Parse(ParseError::InvalidNumber)),
            }
        } else {
            Err(Error::Parse(ParseError::InvalidNumber))
        }
    }
}

/// Parse a string literal: the text between two double quotes.
fn parse_string(fragment: &str) -> (done: Result<Expr, Error>)
    requires
        fragment@.len() > 0,
    ensures
        match done {
            Ok(e) => fragment@.len() >= 2 && fragment@.last() == '"' && e@ == ExprView::String(
                fragment@.subrange(1, fragment@.len() - 1),
            ),
            Err(error) => !(fragment@.len() >= 2 && fragment@.last() == '"') && error@
                == ErrorView::Parse(ParseError::UnterminatedString),
        },
{
    let len: usize = fragment.unicode_len();
    if len >= 2 && fragment.get_char(len - 1) == '"' {
        Ok(Expr::String(String::from_str(fragment.substring_char(1, len - 1))))
    } else {
        Err(Error::Parse(ParseError::UnterminatedString))
    }
}

/// An identifier with the given name.
fn parse_identifier(fragment: &str) -> (ident: Expr)
    ensures
        ident@ == ExprView::Ident(fragment@),
{
    Expr::Ident(smol_new(fragment))
}

/// Whether a token is an atom that starts with a digit.
pub open spec fn is_number_atom(bytes: Seq<u8>, token: TokenView) -> bool {
    &&& token.kind == TokenKind::Atom
    &&& fragment_of(bytes, token.start, token.end) matches Some(text)
    &&& text.len() > 0
    &&& is_digit(text[0])
}

/// The places, as byte offsets, of the atoms among `tokens[from..]` that
/// start with a digit.
pub open spec fn number_spans(bytes: Seq<u8>, tokens: Seq<TokenView>, from: nat) -> Seq<(nat, nat)>
    decreases tokens.len() - from,
{
    if from >= tokens.len() {
        Seq::empty()
    } else {
        let token = tokens[from as int];
        let rest = number_spans(bytes, tokens, from + 1);
        if is_number_atom(bytes, token) {
            seq![(token.start, token.end)] + rest
        } else {
            rest
        }
    }
}

/// The places of spans, as byte offsets.
pub open spec fn span_views(spans: Seq<Span>) -> Seq<(nat, nat)> {
    Seq::new(spans.len(), |i: int| (spans[i].start(), spans[i].end()))
}

/// The places of the atoms of a source that start with a digit, in the
/// order of the source.  The host reads each as a number and hands the
/// values to [`parse`].
#[verifier::loop_isolation(false)]
pub fn number_atoms(source: &str, tokens: &Vec<Token>) -> (atoms: Vec<Span>)
    ensures
        span_views(atoms@) == number_spans(source.spec_bytes(), token_views(tokens@), 0),
{
    let ghost bytes = source.spec_bytes();
    let ghost views = token_views(tokens@);
    let mut atoms: Vec<Span> = Vec::new();
    let mut i: usize = 0;
    assert(span_views(atoms@) + number_spans(bytes, views, 0) =~= number_spans(bytes, views, 0));
    while i < tokens.len()
        invariant
            i <= tokens.len(),
            span_views(atoms@) + number_spans(bytes, views, i as nat) == number_spans(
                bytes,
                views,
                0,
            ),
        decreases tokens.len() - i,
    {
        let token = tokens[i];
        let ghost before = span_views(atoms@);
        let digit = match token.kind {
            TokenKind::Atom => match token.try_fragment(source) {
                Some(fragment) => match fragment.first() {
                    Some(ch) => '0' <= ch && ch <= '9',
                    None => false,
                },
                None => false,
            },
            _ => false,
        };
        assert(digit == is_number_atom(bytes, views[i as int]));
        if digit {
            atoms.push(token.span);
            assert(span_views(atoms@) =~= before + seq![(token@.start, token@.end)]);
            assert(span_views(atoms@) + number_spans(bytes, views, (i + 1) as nat) =~= before
                + number_spans(bytes, views, i as nat));
        }
        i += 1;
    }
    assert(span_views(atoms@) + number_spans(bytes, views, i as nat) =~= span_views(atoms@));
    atoms
}

/// The expression that a source parses to: the sequence of its forms, or
/// its first expression.
pub open spec fn parse_spec(
    bytes: Seq<u8>,
    tokens: Seq<TokenView>,
    numbers: Seq<Option<u64>>,
    is_sequence: bool,
) -> Result<ExprView, ErrorView> {
    let p = ParserView { bytes, tokens, numbers, pos: 0, next_number: 0 };
    if is_sequence {
        parse_sequence(p, Seq::empty()).result
    } else {
        parse_expr(p).result
    }
}

/// Parse the tokens of a source.  `numbers` holds the value of each atom
/// that starts with a digit, in the order of the source.
pub fn parse_tokens(source: &str, tokens: &Vec<Token>, numbers: &Vec<Option<u64>>, is_sequence: bool) -> (expr:
    Result<Expr, Error>)
    ensures
        match expr {
            Ok(e) => parse_spec(source.spec_bytes(), token_views(tokens@), numbers@, is_sequence)
                == Ok::<ExprView, ErrorView>(e@),
            Err(error) => parse_spec(
                source.spec_bytes(),
                token_views(tokens@),
                numbers@,
                is_sequence,
            ) == Err::<ExprView, ErrorView>(error@),
        },
{
    let mut parser = Parser::new(source, tokens, numbers);
    if is_sequence {
        // The forms of a file.
        parser.parse_sequence()
    } else {
        parser.parse_expr()
    }
}

/// Parse a source.  `numbers` holds the value of each atom that starts with
/// a digit, in the order of the source.
pub fn parse(source: &str, numbers: &Vec<Option<u64>>, is_sequence: bool) -> (expr: Result<
    Expr,
    Error,
>)
    ensures
        match expr {
            Ok(e) => parse_spec(
                source.spec_bytes(),
                tokens_from(source@, 1),
                numbers@,
                is_sequence,
            ) == Ok::<ExprView, ErrorView>(e@),
            Err(error) => parse_spec(
                source.spec_bytes(),
                tokens_from(source@, 1),
                numbers@,
                is_sequence,
            ) == Err::<ExprView, ErrorView>(error@),
        },
{
    let tokens = tokenize(source);
    parse_tokens(source, &tokens, numbers, is_sequence)
}

} // verus!
