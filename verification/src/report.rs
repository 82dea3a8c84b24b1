//! The reason of an error, as text for people.
use vstd::prelude::*;

use crate::error::{CompileError, Error, ErrorView, Feature, ParseError, RuntimeError};
use crate::repr::{push_text, repr_of, spelled, write_repr, Piece};
use crate::token::TokenKind;

verus! {

/// The name of a kind of token.
pub open spec fn kind_name(kind: TokenKind) -> Seq<char> {
    match kind {
        TokenKind::LeftParen => "LeftParen"@,
        TokenKind::RightParen => "RightParen"@,
        TokenKind::Atom => "Atom"@,
        TokenKind::QuoteMark => "QuoteMark"@,
        TokenKind::EOF => "EOF"@,
    }
}

/// The reason of a parse error; for a character that no atom starts with,
/// what stands before the character.
pub open spec fn parse_reason(error: ParseError) -> Seq<char> {
    match error {
        ParseError::UnexpectedEnd => "unexpected end"@,
        ParseError::UnexpectedEOF => "unexpected end-of-file"@,
        ParseError::UnexpectedRightParen => "unexpected right parentheses"@,
        ParseError::UnknownAtom => "unknown atom"@,
        ParseError::ExpectedAtom => "expected atom"@,
        ParseError::InvalidNumber => "failed to parse number"@,
        ParseError::UnterminatedString => "unterminated string"@,
        ParseError::UnexpectedCharacter(_) => "unexpected character: "@,
    }
}

/// The reason of a compile error; for an error about a name, what stands
/// before the name.
pub open spec fn compile_reason(error: CompileError) -> Seq<char> {
    match error {
        CompileError::IllFormedExpression => "ill-formed expression"@,
        CompileError::IllFormedSpecialForm => "ill-formed special form"@,
        CompileError::OperatorNotProcedure => "operator is not a procedure"@,
        CompileError::DefineInBodyRest => "ill-formed special form: define must appear at top-level or first in body"@,
        CompileError::ParameterNotIdentifier => "parameter must be an identifier"@,
        CompileError::IdentifierExpected => "identifier expected"@,
        CompileError::TooManyLocals => "number of local variables in scope exceeds maximum of 256"@,
        CompileError::JumpTooFar => "maximum jump address size of 24 bits exceeded"@,
        CompileError::TooManyConstants => "too many constants in a procedure"@,
        CompileError::TooManyProcedures => "too many procedures in an environment"@,
        CompileError::TooManySymbols => "too many variables in an environment"@,
        CompileError::TooManyUpValues => "too many captured variables in a procedure"@,
        CompileError::TooManyArguments => "too many arguments in a call"@,
        CompileError::UnboundVariable => "unbound variable "@,
        CompileError::DuplicateLocal => "duplicate definition of local variable "@,
    }
}

/// The reason of a runtime error.
pub open spec fn runtime_reason(error: RuntimeError) -> Seq<char> {
    match error {
        RuntimeError::WrongArity => "wrong number of arguments passed to procedure"@,
        RuntimeError::WrongType => "wrong type of argument passed to procedure"@,
        RuntimeError::InvalidCallable => "invalid callable type"@,
        RuntimeError::UndefinedVariable => "undefined variable"@,
        RuntimeError::UndeclaredVariable => "variable is not declared"@,
        RuntimeError::AlreadyRunning => "machine is already executing a closure"@,
        RuntimeError::NotSuspended => "machine waits for no result"@,
        RuntimeError::InvalidBytecode => "invalid bytecode"@,
        RuntimeError::StackUnderflow => "operand stack underflow"@,
        RuntimeError::AlreadyBound => "variable already bound"@,
    }
}

/// The name of a form that is not supported.
pub open spec fn feature_name(feature: Feature) -> Seq<char> {
    match feature {
        Feature::Let => "let"@,
        Feature::LetStar => "let*"@,
        Feature::LetRec => "letrec"@,
        Feature::FluidLet => "fluid-let"@,
        Feature::SetBang => "set!"@,
        Feature::Quote => "quote"@,
        Feature::DefineSyntax => "define-syntax"@,
        Feature::Literal => "literal"@,
        Feature::Or => "or"@,
    }
}

/// The reason of an error.
pub open spec fn message_of(error: ErrorView) -> Seq<Piece> {
    match error {
        ErrorView::Reason(reason) => spelled(reason),
        ErrorView::TokenError { expected, actual } => spelled("token error: expected "@)
            + spelled(kind_name(expected)) + spelled(" found "@) + spelled(kind_name(actual)),
        ErrorView::UnexpectedEOF => spelled("unexpected end-of-file"@),
        ErrorView::Parse(ParseError::UnexpectedCharacter(c)) => spelled(
            "unexpected character: "@,
        ).push(Piece::Char(c)),
        ErrorView::Parse(e) => spelled(parse_reason(e)),
        ErrorView::Compile(e, name) => spelled(compile_reason(e)) + spelled(name),
        ErrorView::Runtime(e) => spelled(runtime_reason(e)),
        ErrorView::Assertion(message) => spelled("assertion error: "@) + spelled(message),
        ErrorView::AssertEq(left, right) => spelled("assertion failed: "@) + repr_of(left)
            + spelled(" == "@) + repr_of(right),
        ErrorView::Unimplemented(feature) => spelled("not implemented: "@) + spelled(
            feature_name(feature),
        ),
    }
}

fn kind_text(kind: TokenKind) -> (name: &'static str)
    ensures
        name@ == kind_name(kind),
{
    match kind {
        TokenKind::LeftParen => "LeftParen",
        TokenKind::RightParen => "RightParen",
        TokenKind::Atom => "Atom",
        TokenKind::QuoteMark => "QuoteMark",
        TokenKind::EOF => "EOF",
    }
}

fn parse_text(error: ParseError) -> (reason: &'static str)
    ensures
        reason@ == parse_reason(error),
{
    match error {
        ParseError::UnexpectedEnd => "unexpected end",
        ParseError::UnexpectedEOF => "unexpected end-of-file",
        ParseError::UnexpectedRightParen => "unexpected right parentheses",
        ParseError::UnknownAtom => "unknown atom",
        ParseError::ExpectedAtom => "expected atom",
        ParseError::InvalidNumber => "failed to parse number",
        ParseError::UnterminatedString => "unterminated string",
        ParseError::UnexpectedCharacter(_) => "unexpected character: ",
    }
}

fn compile_text(error: CompileError) -> (reason: &'static str)
    ensures
        reason@ == compile_reason(error),
{
    match error {
        CompileError::IllFormedExpression => "ill-formed expression",
        CompileError::IllFormedSpecialForm => "ill-formed special form",
        CompileError::OperatorNotProcedure => "operator is not a procedure",
        CompileError::DefineInBodyRest => "ill-formed special form: define must appear at top-level or first in body",
        CompileError::ParameterNotIdentifier => "parameter must be an identifier",
        CompileError::IdentifierExpected => "identifier expected",
        CompileError::TooManyLocals => "number of local variables in scope exceeds maximum of 256",
        CompileError::JumpTooFar => "maximum jump address size of 24 bits exceeded",
        CompileError::TooManyConstants => "too many constants in a procedure",
        CompileError::TooManyProcedures => "too many procedures in an environment",
        CompileError::TooManySymbols => "too many variables in an environment",
        CompileError::TooManyUpValues => "too many captured variables in a procedure",
        CompileError::TooManyArguments => "too many arguments in a call",
        CompileError::UnboundVariable => "unbound variable ",
        CompileError::DuplicateLocal => "duplicate definition of local variable ",
    }
}

fn runtime_text(error: RuntimeError) -> (reason: &'static str)
    ensures
        reason@ == runtime_reason(error),
{
    match error {
        RuntimeError::WrongArity => "wrong number of arguments passed to procedure",
        RuntimeError::WrongType => "wrong type of argument passed to procedure",
        RuntimeError::InvalidCallable => "invalid callable type",
        RuntimeError::UndefinedVariable => "undefined variable",
        RuntimeError::UndeclaredVariable => "variable is not declared",
        RuntimeError::AlreadyRunning => "machine is already executing a closure",
        RuntimeError::NotSuspended => "machine waits for no result",
        RuntimeError::InvalidBytecode => "invalid bytecode",
        RuntimeError::StackUnderflow => "operand stack underflow",
        RuntimeError::AlreadyBound => "variable already bound",
    }
}

fn feature_text(feature: Feature) -> (name: &'static str)
    ensures
        name@ == feature_name(feature),
{
    match feature {
        Feature::Let => "let",
        Feature::LetStar => "let*",
        Feature::LetRec => "letrec",
        Feature::FluidLet => "fluid-let",
        Feature::SetBang => "set!",
        Feature::Quote => "quote",
        Feature::DefineSyntax => "define-syntax",
        Feature::Literal => "literal",
        Feature::Or => "or",
    }
}

impl Error {
    /// The reason of the error, as text for people.  Numbers in the text
    /// are left to the host to write out.
    pub fn message(&self) -> (text: Vec<Piece>)
        ensures
            text@ == message_of(self@),
    {
        let mut out: Vec<Piece> = Vec::new();
        match self {
            Error::Reason(reason) => {
                push_text(&mut out, reason.as_str());
            },
            Error::TokenError { expected, actual } => {
                push_text(&mut out, "token error: expected ");
                push_text(&mut out, kind_text(*expected));
                push_text(&mut out, " found ");
                push_text(&mut out, kind_text(*actual));
            },
            Error::UnexpectedEOF => {
                push_text(&mut out, "unexpected end-of-file");
            },
            Error::Parse(ParseError::UnexpectedCharacter(c)) => {
                push_text(&mut out, "unexpected character: ");
                out.push(Piece::Char(*c));
            },
            Error::Parse(e) => {
                push_text(&mut out, parse_text(*e));
            },
            Error::Compile(e, name) => {
                push_text(&mut out, compile_text(*e));
                push_text(&mut out, name.as_str());
            },
            Error::Runtime(e) => {
                push_text(&mut out, runtime_text(*e));
            },
            Error::Assertion(message) => {
                push_text(&mut out, "assertion error: ");
                push_text(&mut out, message.as_str());
            },
            Error::AssertEq(left, right) => {
                push_text(&mut out, "assertion failed: ");
                write_repr(left, &mut out);
                push_text(&mut out, " == ");
                write_repr(right, &mut out);
            },
            Error::Unimplemented(feature) => {
                push_text(&mut out, "not implemented: ");
                push_text(&mut out, feature_text(*feature));
            },
        }
        assert(out@ =~= message_of(self@));
        out
    }
}

} // verus!
