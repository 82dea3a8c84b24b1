//! Errors of every stage: parsing, compiling, running.
use vstd::prelude::*;
use vstd::string::StringExecFns;

use crate::expr::{Expr, ExprView};
use crate::token::TokenKind;

verus! {

/// Why source text could not be parsed.
#[derive(Debug, Clone, Copy, PartialEq, Eq, Structural)]
pub enum ParseError {
    /// The text ended where an expression had to start.
    UnexpectedEnd,
    /// The text ended inside a list.
    UnexpectedEOF,
    /// A `)` without a matching `(`.
    UnexpectedRightParen,
    /// An atom that starts with `#` and is not a known literal.
    UnknownAtom,
    /// An atom that starts with a character no atom may start with.
    UnexpectedCharacter(char),
    /// An empty atom.
    ExpectedAtom,
    /// An atom that starts with a digit and is not a number.
    InvalidNumber,
    /// A string literal without its closing quote.
    UnterminatedString,
}

/// Why an expression could not be compiled.
#[derive(Debug, Clone, Copy, PartialEq, Eq, Structural)]
pub enum CompileError {
    /// An identifier that is neither a local, nor a variable of an enclosing
    /// procedure, nor a variable of the environment.
    UnboundVariable,
    /// An empty list where a form was expected.
    IllFormedExpression,
    /// A special form with missing or misplaced parts.
    IllFormedSpecialForm,
    /// A call whose operator is not an identifier.
    OperatorNotProcedure,
    /// A local that is declared twice in one scope.
    DuplicateLocal,
    /// A `define` after the first expression of a body.
    DefineInBodyRest,
    /// A formal parameter that is not an identifier.
    ParameterNotIdentifier,
    /// A `define` without a name.
    IdentifierExpected,
    /// More locals in one procedure than a call frame can hold.
    TooManyLocals,
    /// A jump whose target does not fit the instruction.
    JumpTooFar,
    /// More constants in one procedure than can be numbered.
    TooManyConstants,
    /// More procedures in one environment than can be numbered.
    TooManyProcedures,
    /// More names in one environment than can be numbered.
    TooManySymbols,
    /// More captured variables in one procedure than can be numbered.
    TooManyUpValues,
    /// More arguments in one call than the instruction can hold.
    TooManyArguments,
}

/// Why a program stopped with an error.
#[derive(Debug, Clone, Copy, PartialEq, Eq, Structural)]
pub enum RuntimeError {
    /// A call with a number of arguments the callee does not take.
    WrongArity,
    /// An argument of a type the callee does not take.
    WrongType,
    /// A call of a value that is neither a closure nor a native function.
    InvalidCallable,
    /// A load of a variable that the environment has no slot for.
    UndefinedVariable,
    /// A store to a variable that the environment has no slot for.
    UndeclaredVariable,
    /// A start while the machine is in the middle of a run.
    AlreadyRunning,
    /// A result handed to a machine that waits for none.
    NotSuspended,
    /// Bytecode the compiler does not produce: an address outside the code,
    /// an operand outside its table, or an instruction out of place.
    InvalidBytecode,
    /// The operand stack is too short for the instruction.
    StackUnderflow,
    /// A name that is bound already.
    AlreadyBound,
}

/// A form the language reserves and this implementation does not support.
#[derive(Debug, Clone, Copy, PartialEq, Eq, Structural)]
pub enum Feature {
    Let,
    LetStar,
    LetRec,
    FluidLet,
    SetBang,
    Quote,
    DefineSyntax,
    /// A value that is not the text of a program, such as a closure.
    Literal,
    /// The built-in `or`.
    Or,
}

#[derive(Debug)]
pub enum Error {
    /// A free-form reason.
    Reason(String),
    TokenError { expected: TokenKind, actual: TokenKind },
    UnexpectedEOF,
    Parse(ParseError),
    /// A compile error, with the name it is about or the empty string.
    Compile(CompileError, String),
    Runtime(RuntimeError),
    /// A failed assertion, with its message.
    Assertion(String),
    /// A failed assertion that two values are equal, with the two values.
    AssertEq(Expr, Expr),
    Unimplemented(Feature),
}

pub enum ErrorView {
    Reason(Seq<char>),
    TokenError { expected: TokenKind, actual: TokenKind },
    UnexpectedEOF,
    Parse(ParseError),
    Compile(CompileError, Seq<char>),
    Runtime(RuntimeError),
    Assertion(Seq<char>),
    AssertEq(ExprView, ExprView),
    Unimplemented(Feature),
}

impl View for Error {
    type V = ErrorView;

    open spec fn view(&self) -> ErrorView {
        match self {
            Error::Reason(reason) => ErrorView::Reason(reason@),
            Error::TokenError { expected, actual } => ErrorView::TokenError {
                expected: *expected,
                actual: *actual,
            },
            Error::UnexpectedEOF => ErrorView::UnexpectedEOF,
            Error::Parse(e) => ErrorView::Parse(*e),
            Error::Compile(e, name) => ErrorView::Compile(*e, name@),
            Error::Runtime(e) => ErrorView::Runtime(*e),
            Error::Assertion(message) => ErrorView::Assertion(message@),
            Error::AssertEq(left, right) => ErrorView::AssertEq(left@, right@),
            Error::Unimplemented(feature) => ErrorView::Unimplemented(*feature),
        }
    }
}

pub type Result<T> = core::result::Result<T, Error>;

impl Error {
    /// A compile error that is about no particular name.
    pub fn compile(kind: CompileError) -> (e: Error)
        ensures
            e@ == ErrorView::Compile(kind, Seq::empty()),
    {
        Error::Compile(kind, String::new())
    }

    /// A compile error about a name.
    pub fn compile_named(kind: CompileError, name: &str) -> (e: Error)
        ensures
            e@ == ErrorView::Compile(kind, name@),
    {
        Error::Compile(kind, String::from_str(name))
    }

    pub fn duplicate(&self) -> (copy: Error)
        ensures
            copy@ == self@,
    {
        match self {
            Error::Reason(reason) => Error::Reason(reason.clone()),
            Error::TokenError { expected, actual } => Error::TokenError {
                expected: *expected,
                actual: *actual,
            },
            Error::UnexpectedEOF => Error::UnexpectedEOF,
            Error::Parse(e) => Error::Parse(*e),
            Error::Compile(e, name) => Error::Compile(*e, name.clone()),
            Error::Runtime(e) => Error::Runtime(*e),
            Error::Assertion(message) => Error::Assertion(message.clone()),
            Error::AssertEq(left, right) => Error::AssertEq(left.duplicate(), right.duplicate()),
            Error::Unimplemented(feature) => Error::Unimplemented(*feature),
        }
    }
}

impl Clone for Error {
    fn clone(&self) -> (copy: Self)
        ensures
            copy@ == self@,
    {
        self.duplicate()
    }
}

} // verus!
