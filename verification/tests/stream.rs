//! The token stream and the texts of errors.
use scheme_engine::error::{CompileError, Error, Feature, ParseError, RuntimeError};
use scheme_engine::lexer::Lexer;
use scheme_engine::parser::parse_tokens;
use scheme_engine::repr::Piece;
use scheme_engine::token::{Token, TokenKind};
use scheme_engine::token_stream::TokenStream;
use scheme_engine::{tokenize, Expr};

fn text_of(error: &Error) -> String {
    let mut text = String::new();
    for piece in error.message() {
        match piece {
            Piece::Char(c) => text.push(c),
            Piece::Number(bits) => text.push_str(&format!("{}", f64::from_bits(bits))),
        }
    }
    text
}

#[test]
fn a_token_stream_looks_one_token_ahead() {
    let mut stream = TokenStream::from_lexer(Lexer::new("(a)"));
    assert!(!stream.at_end());
    assert_eq!(stream.peek_kind(), Some(TokenKind::LeftParen));
    assert_eq!(stream.peek().map(|t| t.kind), Some(TokenKind::LeftParen));
    assert_eq!(stream.next_token().map(|t| t.kind), Some(TokenKind::LeftParen));
    assert_eq!(stream.next_token().map(|t| (t.kind, t.span.low(), t.span.high())), Some((TokenKind::Atom, 1, 2)));
    assert_eq!(stream.peek_kind(), Some(TokenKind::RightParen));
    assert!(!stream.at_end());
    assert_eq!(stream.next_token().map(|t| t.kind), Some(TokenKind::RightParen));
    assert!(stream.at_end());
    assert_eq!(stream.next_token().map(|t| t.kind), Some(TokenKind::EOF));
    assert!(stream.at_end());
    assert_eq!(stream.peek_kind(), None);
    assert_eq!(stream.next_token().map(|t| t.kind), None);
}

#[test]
fn consume_takes_a_token_of_the_expected_kind_only() {
    let mut stream = TokenStream::from_lexer(Lexer::new("(a"));
    match stream.consume(TokenKind::Atom) {
        Err(Error::TokenError { expected, actual }) => {
            assert_eq!(expected, TokenKind::Atom);
            assert_eq!(actual, TokenKind::LeftParen);
        }
        other => panic!("unexpected result {other:?}"),
    }
    // The token was not taken.
    assert_eq!(stream.consume(TokenKind::LeftParen).map(|t| t.kind).ok(), Some(TokenKind::LeftParen));
    assert_eq!(stream.consume(TokenKind::Atom).map(|t| t.kind).ok(), Some(TokenKind::Atom));
    assert_eq!(stream.consume(TokenKind::EOF).map(|t| t.kind).ok(), Some(TokenKind::EOF));
    assert!(matches!(stream.consume(TokenKind::EOF), Err(Error::UnexpectedEOF)));
}

#[test]
fn tokens_that_do_not_fit_the_source_are_parse_errors() {
    let none: Vec<Token> = Vec::new();
    let numbers: Vec<Option<u64>> = Vec::new();
    // No token at all, not even the one for the end.
    assert!(matches!(
        parse_tokens("", &none, &numbers, false),
        Err(Error::Parse(ParseError::UnexpectedEnd))
    ));
    match parse_tokens("", &none, &numbers, true) {
        Ok(Expr::Sequence(items)) => assert!(items.is_empty()),
        other => panic!("unexpected result {other:?}"),
    }
    // The tokens of a longer source.
    let tokens = tokenize("abcdef");
    assert!(matches!(
        parse_tokens("abc", &tokens, &numbers, false),
        Err(Error::Parse(ParseError::ExpectedAtom))
    ));
}

#[test]
fn errors_give_their_reason() {
    assert_eq!(text_of(&Error::Reason("why".to_string())), "why");
    assert_eq!(
        text_of(&Error::TokenError { expected: TokenKind::Atom, actual: TokenKind::EOF }),
        "token error: expected Atom found EOF"
    );
    assert_eq!(text_of(&Error::UnexpectedEOF), "unexpected end-of-file");
    assert_eq!(text_of(&Error::Parse(ParseError::UnexpectedRightParen)), "unexpected right parentheses");
    assert_eq!(text_of(&Error::Parse(ParseError::UnexpectedCharacter('%'))), "unexpected character: %");
    assert_eq!(text_of(&Error::Parse(ParseError::InvalidNumber)), "failed to parse number");
    assert_eq!(
        text_of(&Error::compile_named(CompileError::UnboundVariable, "x")),
        "unbound variable x"
    );
    assert_eq!(
        text_of(&Error::compile_named(CompileError::DuplicateLocal, "y")),
        "duplicate definition of local variable y"
    );
    assert_eq!(
        text_of(&Error::compile(CompileError::TooManyLocals)),
        "number of local variables in scope exceeds maximum of 256"
    );
    assert_eq!(
        text_of(&Error::compile(CompileError::JumpTooFar)),
        "maximum jump address size of 24 bits exceeded"
    );
    assert_eq!(
        text_of(&Error::Runtime(RuntimeError::WrongArity)),
        "wrong number of arguments passed to procedure"
    );
    assert_eq!(
        text_of(&Error::Runtime(RuntimeError::AlreadyRunning)),
        "machine is already executing a closure"
    );
    assert_eq!(text_of(&Error::Assertion("nope".to_string())), "assertion error: nope");
    assert_eq!(
        text_of(&Error::AssertEq(Expr::Number(1.5f64.to_bits()), Expr::Bool(true))),
        "assertion failed: 1.5 == #t"
    );
    assert_eq!(text_of(&Error::Unimplemented(Feature::SetBang)), "not implemented: set!");
    assert_eq!(text_of(&Error::Unimplemented(Feature::LetStar)), "not implemented: let*");
}

#[test]
fn a_copy_of_an_error_is_the_same_error() {
    let error = Error::AssertEq(Expr::Ident("a".into()), Expr::List(vec![Expr::Nil]));
    assert_eq!(format!("{:?}", error.clone()), format!("{error:?}"));
    let error = Error::compile_named(CompileError::UnboundVariable, "x");
    assert_eq!(text_of(&error.clone()), text_of(&error));
}
