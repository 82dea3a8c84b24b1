//! The core library: the functions every environment starts with.
//!
//! The virtual machine hands a native call out to the host.  The functions
//! here do for the host what needs no floating-point arithmetic and no
//! output: they check the arguments, and they compute the result where they
//! can.  Where they cannot, they say what is left for the host to do.
use vstd::prelude::*;
use vstd::string::StringExecFns;

use crate::env::{Env, EnvView};
use crate::error::{Error, ErrorView, Feature, RuntimeError};
use crate::expr::{expr_eq, group_views, views, Expr, ExprView, NativeFunc};
use crate::limits::MAX_TABLE;
use crate::repr::{repr, repr_of, Piece};

verus! {

broadcast use group_views;

/// The functions of the core library, in the order in which they are bound.
#[derive(Debug, Clone, Copy, PartialEq, Eq, Structural)]
pub enum Builtin {
    Assert,
    AssertEq,
    Display,
    Newline,
    IsNumber,
    Add,
    Sub,
    Mul,
    NumEq,
    Lt,
    Gt,
    LtEq,
    GtEq,
    IsBoolean,
    Not,
    And,
    Or,
}

/// The number of functions in the core library.
pub const BUILTIN_COUNT: usize = 17;

/// The bit pattern of the number 0.
pub const ZERO: u64 = 0;

/// The bit pattern of the number 1.
pub const ONE: u64 = 0x3ff0_0000_0000_0000;

impl Builtin {
    /// The function with the given index.
    pub open spec fn at(index: int) -> Option<Builtin> {
        if index == 0 {
            Some(Builtin::Assert)
        } else if index == 1 {
            Some(Builtin::AssertEq)
        } else if index == 2 {
            Some(Builtin::Display)
        } else if index == 3 {
            Some(Builtin::Newline)
        } else if index == 4 {
            Some(Builtin::IsNumber)
        } else if index == 5 {
            Some(Builtin::Add)
        } else if index == 6 {
            Some(Builtin::Sub)
        } else if index == 7 {
            Some(Builtin::Mul)
        } else if index == 8 {
            Some(Builtin::NumEq)
        } else if index == 9 {
            Some(Builtin::Lt)
        } else if index == 10 {
            Some(Builtin::Gt)
        } else if index == 11 {
            Some(Builtin::LtEq)
        } else if index == 12 {
            Some(Builtin::GtEq)
        } else if index == 13 {
            Some(Builtin::IsBoolean)
        } else if index == 14 {
            Some(Builtin::Not)
        } else if index == 15 {
            Some(Builtin::And)
        } else if index == 16 {
            Some(Builtin::Or)
        } else {
            None
        }
    }

    /// The name that the function is bound to.
    pub open spec fn spec_name(self) -> Seq<char> {
        match self {
            Builtin::Assert => "assert"@,
            Builtin::AssertEq => "assert-eq"@,
            Builtin::Display => "display"@,
            Builtin::Newline => "newline"@,
            Builtin::IsNumber => "number?"@,
            Builtin::Add => "+"@,
            Builtin::Sub => "-"@,
            Builtin::Mul => "*"@,
            Builtin::NumEq => "="@,
            Builtin::Lt => "<"@,
            Builtin::Gt => ">"@,
            Builtin::LtEq => "<="@,
            Builtin::GtEq => ">="@,
            Builtin::IsBoolean => "boolean?"@,
            Builtin::Not => "not"@,
            Builtin::And => "and"@,
            Builtin::Or => "or"@,
        }
    }

    /// The function with the given index.
    pub fn from_index(index: usize) -> (builtin: Option<Builtin>)
        ensures
            builtin == Self::at(index as int),
    {
        if index == 0 {
            Some(Builtin::Assert)
        } else if index == 1 {
            Some(Builtin::AssertEq)
        } else if index == 2 {
            Some(Builtin::Display)
        } else if index == 3 {
            Some(Builtin::Newline)
        } else if index == 4 {
            Some(Builtin::IsNumber)
        } else if index == 5 {
            Some(Builtin::Add)
        } else if index == 6 {
            Some(Builtin::Sub)
        } else if index == 7 {
            Some(Builtin::Mul)
        } else if index == 8 {
            Some(Builtin::NumEq)
        } else if index == 9 {
            Some(Builtin::Lt)
        } else if index == 10 {
            Some(Builtin::Gt)
        } else if index == 11 {
            Some(Builtin::LtEq)
        } else if index == 12 {
            Some(Builtin::GtEq)
        } else if index == 13 {
            Some(Builtin::IsBoolean)
        } else if index == 14 {
            Some(Builtin::Not)
        } else if index == 15 {
            Some(Builtin::And)
        } else if index == 16 {
            Some(Builtin::Or)
        } else {
            None
        }
    }

    /// The function that a native function value of the core library denotes.
    pub fn of(func: NativeFunc) -> (builtin: Option<Builtin>)
        ensures
            builtin == Self::at(func.0 as int),
    {
        Self::from_index(func.0 as usize)
    }

    /// The name that the function is bound to.
    pub fn name(self) -> (name: &'static str)
        ensures
            name@ == self.spec_name(),
    {
        match self {
            Builtin::Assert => "assert",
            Builtin::AssertEq => "assert-eq",
            Builtin::Display => "display",
            Builtin::Newline => "newline",
            Builtin::IsNumber => "number?",
            Builtin::Add => "+",
            Builtin::Sub => "-",
            Builtin::Mul => "*",
            Builtin::NumEq => "=",
            Builtin::Lt => "<",
            Builtin::Gt => ">",
            Builtin::LtEq => "<=",
            Builtin::GtEq => ">=",
            Builtin::IsBoolean => "boolean?",
            Builtin::Not => "not",
            Builtin::And => "and",
            Builtin::Or => "or",
        }
    }
}

/// The environment after the functions with the indices `from..` have been
/// bound, each to its name, and whether all could be bound.  Binding stops
/// at the first name that is bound already.
pub open spec fn bound_from(env: EnvView, from: nat) -> (EnvView, bool)
    decreases BUILTIN_COUNT - from,
{
    if from >= BUILTIN_COUNT {
        (env, true)
    } else {
        let name = Builtin::at(from as int)->0.spec_name();
        if env.resolve(name) is None && env.names.len() < MAX_TABLE {
            bound_from(
                env.intern(name).set(
                    crate::opcode::SymbolId(env.names.len() as u16),
                    ExprView::NativeFunc(NativeFunc(from as u16)),
                ),
                from + 1,
            )
        } else {
            (env, false)
        }
    }
}

/// The names of the first `count` functions of the core library.
pub open spec fn core_names(count: nat) -> Seq<Seq<char>>
    decreases count,
{
    if count == 0 || count > BUILTIN_COUNT {
        Seq::empty()
    } else {
        core_names((count - 1) as nat).push(Builtin::at(count - 1)->0.spec_name())
    }
}

/// No two functions of the core library have the same name.
pub proof fn lemma_core_names_differ(i: int, j: int)
    requires
        0 <= i < j < BUILTIN_COUNT,
    ensures
        Builtin::at(i)->0.spec_name() != Builtin::at(j)->0.spec_name(),
{
    reveal_strlit("assert");
    reveal_strlit("assert-eq");
    reveal_strlit("display");
    reveal_strlit("newline");
    reveal_strlit("number?");
    reveal_strlit("+");
    reveal_strlit("-");
    reveal_strlit("*");
    reveal_strlit("=");
    reveal_strlit("<");
    reveal_strlit(">");
    reveal_strlit("<=");
    reveal_strlit(">=");
    reveal_strlit("boolean?");
    reveal_strlit("not");
    reveal_strlit("and");
    reveal_strlit("or");
    let a = Builtin::at(i)->0.spec_name();
    let b = Builtin::at(j)->0.spec_name();
    if a.len() == b.len() {
        assert(a[0] != b[0] || a[1] != b[1]);
    }
}

/// A name of the core library is not among the names before it.
proof fn lemma_core_name_fresh(count: nat, upto: nat)
    requires
        upto <= count < BUILTIN_COUNT,
    ensures
        core_names(upto).len() == upto,
        crate::symbol::position_from(
            core_names(count),
            Builtin::at(count as int)->0.spec_name(),
            (count - upto) as nat,
        ) is None,
    decreases upto,
{
    lemma_core_names_len(count);
    lemma_core_names_len(upto);
    if upto > 0 {
        lemma_core_name_fresh(count, (upto - 1) as nat);
        lemma_core_names_at(count, count - upto);
        lemma_core_names_differ(count - upto, count as int);
    }
}

/// There are as many names as asked for.
proof fn lemma_core_names_len(count: nat)
    requires
        count <= BUILTIN_COUNT,
    ensures
        core_names(count).len() == count,
    decreases count,
{
    if count > 0 {
        lemma_core_names_len((count - 1) as nat);
    }
}

/// The names come in the order of the functions.
proof fn lemma_core_names_at(count: nat, i: int)
    requires
        0 <= i < count <= BUILTIN_COUNT,
    ensures
        core_names(count).len() == count,
        core_names(count)[i] == Builtin::at(i)->0.spec_name(),
    decreases count,
{
    lemma_core_names_len(count);
    lemma_core_names_len((count - 1) as nat);
    if i < count - 1 {
        lemma_core_names_at((count - 1) as nat, i);
    }
}

/// In an environment whose names are those of the functions before it, each
/// function of the core library can be bound.
proof fn lemma_binds_from(env: EnvView, from: nat)
    requires
        from <= BUILTIN_COUNT,
        env.names == core_names(from),
    ensures
        bound_from(env, from).1,
    decreases BUILTIN_COUNT - from,
{
    if from < BUILTIN_COUNT {
        let name = Builtin::at(from as int)->0.spec_name();
        lemma_core_names_len(from);
        lemma_core_name_fresh(from, from);
        let next = env.intern(name).set(
            crate::opcode::SymbolId(env.names.len() as u16),
            ExprView::NativeFunc(NativeFunc(from as u16)),
        );
        assert(next.names == core_names(from + 1));
        lemma_binds_from(next, from + 1);
    }
}

/// The core library can be bound in an empty environment: the names of
/// its functions are all different.
pub proof fn lemma_core_binds()
    ensures
        bound_from(EnvView::empty(), 0).1,
{
    lemma_binds_from(EnvView::empty(), 0);
}

/// Bind the functions of the core library in an environment.
///
/// Fails on the first name that the environment has bound already; the
/// functions before it stay bound.
pub fn init_core(env: &mut Env) -> (done: Result<(), Error>)
    requires
        old(env).wf(),
    ensures
        final(env).wf(),
        final(env)@ == bound_from(old(env)@, 0).0,
        done is Ok == bound_from(old(env)@, 0).1,
        done matches Err(e) ==> e@ == ErrorView::Runtime(RuntimeError::AlreadyBound),
{
    let mut index: usize = 0;
    while index < BUILTIN_COUNT
        invariant
            index <= BUILTIN_COUNT,
            env.wf(),
            bound_from(old(env)@, 0) == bound_from(env@, index as nat),
        decreases BUILTIN_COUNT - index,
    {
        let builtin = match Builtin::from_index(index) {
            Some(builtin) => builtin,
            None => vstd::pervasive::unreached(),
        };
        match env.bind_native_func(builtin.name(), NativeFunc(index as u16)) {
            Ok(_) => {},
            Err(error) => {
                return Err(error);
            },
        }
        index += 1;
    }
    Ok(())
}

/// A fold of numbers that is left for the host: `start op x1 op x2 ...`.
#[derive(Debug, Clone, Copy, PartialEq, Eq, Structural)]
pub enum ArithOp {
    Add,
    Sub,
    Mul,
}

/// A comparison of neighbours that is left for the host: `x1 op x2`, and `x2 op x3`, ...
#[derive(Debug, Clone, Copy, PartialEq, Eq, Structural)]
pub enum CompareOp {
    Eq,
    Lt,
    Gt,
    LtEq,
    GtEq,
}

/// What a call of a core function comes to.
#[derive(Debug)]
pub enum Reply {
    /// The call returns this value.
    Value(Expr),
    /// The call fails.
    Error(Error),
    /// The call returns the number that folding the operands gives.  The
    /// numbers are bit patterns, and there is at least one operand.
    Arith { op: ArithOp, start: u64, operands: Vec<u64> },
    /// The call returns whether all neighbours among the operands
    /// compare as asked.  There are at least two operands.
    Compare { relation: CompareOp, operands: Vec<u64> },
    /// The call is `assert-eq` of two numbers, given as bit patterns that
    /// differ: it comes to what [`assert_eq_numbers`] gives, once the host
    /// has said whether the two are equal as numbers.
    Equal { left: u64, right: u64 },
    /// The call prints this text and returns void.
    Display(Vec<Piece>),
    /// The call ends the line of output and returns void.
    Newline,
    /// The function is none of the core library.
    Unknown,
}

pub enum ReplyView {
    Value(ExprView),
    Error(ErrorView),
    Arith { op: ArithOp, start: u64, operands: Seq<u64> },
    Compare { relation: CompareOp, operands: Seq<u64> },
    Equal { left: u64, right: u64 },
    Display(Seq<Piece>),
    Newline,
    Unknown,
}

impl View for Reply {
    type V = ReplyView;

    open spec fn view(&self) -> ReplyView {
        match self {
            Reply::Value(value) => ReplyView::Value(value@),
            Reply::Error(error) => ReplyView::Error(error@),
            Reply::Arith { op, start, operands } => ReplyView::Arith {
                op: *op,
                start: *start,
                operands: operands@,
            },
            Reply::Compare { relation, operands } => ReplyView::Compare {
                relation: *relation,
                operands: operands@,
            },
            Reply::Equal { left, right } => ReplyView::Equal { left: *left, right: *right },
            Reply::Display(text) => ReplyView::Display(text@),
            Reply::Newline => ReplyView::Newline,
            Reply::Unknown => ReplyView::Unknown,
        }
    }
}

/// A call that fails with a runtime error.
pub open spec fn fails(kind: RuntimeError) -> ReplyView {
    ReplyView::Error(ErrorView::Runtime(kind))
}

/// The index of the first argument at or after `from` that is no number.
pub open spec fn first_non_number(args: Seq<ExprView>, from: nat) -> Option<nat>
    decreases args.len() - from,
{
    if from >= args.len() {
        None
    } else if !(args[from as int] is Number) {
        Some(from)
    } else {
        first_non_number(args, from + 1)
    }
}

/// The bit patterns of arguments that are all numbers.
pub open spec fn numbers_of(args: Seq<ExprView>) -> Seq<u64> {
    Seq::new(args.len(), |i: int| args[i]->Number_0)
}

/// The bit patterns of the arguments, if all are numbers.
fn numbers(args: &Vec<Expr>) -> (bits: Option<Vec<u64>>)
    ensures
        bits is Some <==> first_non_number(views(args@), 0) is None,
        bits matches Some(b) ==> b@ == numbers_of(views(args@)),
{
    let mut bits: Vec<u64> = Vec::new();
    let mut i: usize = 0;
    while i < args.len()
        invariant
            i <= args.len(),
            bits@.len() == i,
            first_non_number(views(args@), 0) == first_non_number(views(args@), i as nat),
            forall|k: int| 0 <= k < i ==> bits@[k] == (#[trigger] views(args@)[k])->Number_0,
        decreases args.len() - i,
    {
        match args[i].as_number() {
            Some(n) => bits.push(n),
            None => {
                return None;
            },
        }
        i += 1;
    }
    assert(bits@ =~= numbers_of(views(args@)));
    Some(bits)
}

/// One argument, or the error of a call with another number of arguments.
pub fn args1(args: &Vec<Expr>) -> (arg: Result<&Expr, Error>)
    ensures
        arg is Ok <==> args@.len() == 1,
        arg matches Ok(a) ==> *a == args@[0],
        arg matches Err(e) ==> e@ == ErrorView::Runtime(RuntimeError::WrongArity),
{
    if args.len() == 1 {
        Ok(&args[0])
    } else {
        Err(Error::Runtime(RuntimeError::WrongArity))
    }
}

/// Two arguments, or the error of a call with another number of arguments.
pub fn args2(args: &Vec<Expr>) -> (pair: Result<(&Expr, &Expr), Error>)
    ensures
        pair is Ok <==> args@.len() == 2,
        pair matches Ok(p) ==> *p.0 == args@[0] && *p.1 == args@[1],
        pair matches Err(e) ==> e@ == ErrorView::Runtime(RuntimeError::WrongArity),
{
    if args.len() == 2 {
        Ok((&args[0], &args[1]))
    } else {
        Err(Error::Runtime(RuntimeError::WrongArity))
    }
}

/// Two numbers, as bit patterns, or the error of a call with other arguments.
pub fn args2_numbers(args: &Vec<Expr>) -> (pair: Result<(u64, u64), Error>)
    ensures
        pair is Ok <==> args@.len() == 2 && args@[0]@ is Number && args@[1]@ is Number,
        pair matches Ok(p) ==> args@[0]@ == ExprView::Number(p.0) && args@[1]@
            == ExprView::Number(p.1),
        pair matches Err(e) ==> e@ == ErrorView::Runtime(RuntimeError::WrongArity),
{
    if args.len() == 2 {
        match (args[0].as_number(), args[1].as_number()) {
            (Some(a), Some(b)) => Ok((a, b)),
            _ => Err(Error::Runtime(RuntimeError::WrongArity)),
        }
    } else {
        Err(Error::Runtime(RuntimeError::WrongArity))
    }
}

/// `(assert <expr> <message>?)`: the value of the expression unless it is `#f`.
pub open spec fn assert_spec(args: Seq<ExprView>) -> Result<ExprView, ErrorView> {
    if args.len() == 0 {
        Err(ErrorView::Runtime(RuntimeError::WrongArity))
    } else if args[0] == ExprView::Bool(false) {
        if args.len() == 1 {
            Err(ErrorView::Assertion("#f"@))
        } else {
            match args[1] {
                ExprView::String(message) => Err(ErrorView::Assertion(message)),
                _ => Err(ErrorView::Runtime(RuntimeError::WrongType)),
            }
        }
    } else {
        Ok(args[0])
    }
}

/// There is no assert in Scheme; this one helps with testing.
///
/// ```scheme
/// (assert <expr> <message>?)
/// ```
pub fn ext_assert(args: &Vec<Expr>) -> (value: Result<Expr, Error>)
    ensures
        match assert_spec(views(args@)) {
            Ok(v) => value matches Ok(r) && r@ == v,
            Err(e) => value matches Err(r) && r@ == e,
        },
{
    if args.len() == 0 {
        return Err(Error::Runtime(RuntimeError::WrongArity));
    }
    let expr = &args[0];
    let failed = match expr {
        Expr::Bool(false) => true,
        _ => false,
    };
    if failed {
        if args.len() == 1 {
            Err(Error::Assertion(String::from_str("#f")))
        } else {
            match &args[1] {
                Expr::String(message) => Err(Error::Assertion(message.clone())),
                _ => Err(Error::Runtime(RuntimeError::WrongType)),
            }
        }
    } else {
        Ok(expr.duplicate())
    }
}

/// `(assert-eq <a> <b>)`: the list of the two values if they are equal,
/// else the error that carries the two.  Two numbers of one bit pattern are
/// equal; whether two numbers of different bit patterns are equal as
/// numbers is for the host to say.
pub open spec fn assert_eq_spec(args: Seq<ExprView>) -> ReplyView {
    if args.len() != 2 {
        fails(RuntimeError::WrongArity)
    } else if expr_eq(args[0], args[1]) {
        ReplyView::Value(ExprView::List(seq![args[0], args[1]]))
    } else if args[0] is Number && args[1] is Number {
        ReplyView::Equal { left: args[0]->Number_0, right: args[1]->Number_0 }
    } else {
        ReplyView::Error(ErrorView::AssertEq(args[0], args[1]))
    }
}

pub fn ext_assert_eq(args: &Vec<Expr>) -> (reply: Reply)
    ensures
        reply@ == assert_eq_spec(views(args@)),
{
    let (arg1, arg2) = match args2(args) {
        Ok(pair) => pair,
        Err(error) => {
            return Reply::Error(error);
        },
    };
    if arg1.same(arg2) {
        let mut pair: Vec<Expr> = Vec::new();
        pair.push(arg1.duplicate());
        pair.push(arg2.duplicate());
        assert(views(pair@) =~= seq![arg1@, arg2@]);
        Reply::Value(Expr::List(pair))
    } else {
        match (arg1.as_number(), arg2.as_number()) {
            (Some(left), Some(right)) => Reply::Equal { left, right },
            _ => Reply::Error(Error::AssertEq(arg1.duplicate(), arg2.duplicate())),
        }
    }
}

/// What `assert-eq` of two numbers comes to, given whether they are equal
/// as numbers: the list of the two, or the error that carries the two.
pub open spec fn assert_eq_numbers_spec(left: u64, right: u64, equal: bool) -> Result<
    ExprView,
    ErrorView,
> {
    if equal {
        Ok(ExprView::List(seq![ExprView::Number(left), ExprView::Number(right)]))
    } else {
        Err(ErrorView::AssertEq(ExprView::Number(left), ExprView::Number(right)))
    }
}

/// Finish an `assert-eq` of two numbers with what the host found.
pub fn assert_eq_numbers(left: u64, right: u64, equal: bool) -> (value: Result<Expr, Error>)
    ensures
        match assert_eq_numbers_spec(left, right, equal) {
            Ok(v) => value matches Ok(r) && r@ == v,
            Err(e) => value matches Err(r) && r@ == e,
        },
{
    if equal {
        let mut pair: Vec<Expr> = Vec::new();
        pair.push(Expr::Number(left));
        pair.push(Expr::Number(right));
        assert(views(pair@) =~= seq![ExprView::Number(left), ExprView::Number(right)]);
        Ok(Expr::List(pair))
    } else {
        Err(Error::AssertEq(Expr::Number(left), Expr::Number(right)))
    }
}

/// `(display <value>)`: the text of the value, for the host to print.
pub fn display(args: &Vec<Expr>) -> (text: Result<Vec<Piece>, Error>)
    ensures
        text is Ok <==> args@.len() == 1,
        text matches Ok(t) ==> t@ == repr_of(args@[0]@),
        text matches Err(e) ==> e@ == ErrorView::Runtime(RuntimeError::WrongArity),
{
    let arg0 = match args1(args) {
        Ok(arg) => arg,
        Err(error) => {
            return Err(error);
        },
    };
    Ok(repr(arg0))
}

/// `(newline)`: nothing to check; the host ends the line.
pub fn newline(_args: &Vec<Expr>) -> (value: Result<Expr, Error>)
    ensures
        value matches Ok(v) && v@ == ExprView::Void,
{
    Ok(Expr::Void)
}

/// `(number? <value>)`
pub fn number_is_number(args: &Vec<Expr>) -> (value: Result<Expr, Error>)
    ensures
        value is Ok <==> args@.len() >= 1,
        value matches Ok(v) ==> v@ == ExprView::Bool(args@[0]@ is Number),
        value matches Err(e) ==> e@ == ErrorView::Runtime(RuntimeError::WrongArity),
{
    if args.len() == 0 {
        return Err(Error::Runtime(RuntimeError::WrongArity));
    }
    Ok(Expr::Bool(args[0].is_number()))
}

/// What a fold of numbers comes to.  No operand after the start: the
/// start.  Else the fold is left to the host.
pub open spec fn fold(op: ArithOp, start: u64, operands: Seq<u64>) -> ReplyView {
    if operands.len() == 0 {
        ReplyView::Value(ExprView::Number(start))
    } else {
        ReplyView::Arith { op, start, operands }
    }
}

/// `(+ <number>...)`: the sum, starting from 0.
pub open spec fn add_spec(args: Seq<ExprView>) -> ReplyView {
    if first_non_number(args, 0) is Some {
        fails(RuntimeError::WrongType)
    } else {
        fold(ArithOp::Add, ZERO, numbers_of(args))
    }
}

/// `(* <number>...)`: the product, starting from 1.
pub open spec fn mul_spec(args: Seq<ExprView>) -> ReplyView {
    if first_non_number(args, 0) is Some {
        fails(RuntimeError::WrongType)
    } else {
        fold(ArithOp::Mul, ONE, numbers_of(args))
    }
}

/// `(- <number> <number>...)`: the first number less all the others.
pub open spec fn sub_spec(args: Seq<ExprView>) -> ReplyView {
    if args.len() == 0 {
        fails(RuntimeError::WrongArity)
    } else if first_non_number(args, 0) is Some {
        fails(RuntimeError::WrongType)
    } else {
        fold(ArithOp::Sub, numbers_of(args)[0], numbers_of(args).subrange(1, args.len() as int))
    }
}

/// `(<op> <number> <number> <number>...)` for a comparison.
pub open spec fn compare_spec(op: CompareOp, args: Seq<ExprView>) -> ReplyView {
    if args.len() < 2 {
        fails(RuntimeError::WrongArity)
    } else if first_non_number(args, 0) is Some {
        fails(RuntimeError::WrongType)
    } else {
        ReplyView::Compare { relation: op, operands: numbers_of(args) }
    }
}

/// Fold checked operands.
fn folded(op: ArithOp, start: u64, operands: Vec<u64>) -> (reply: Reply)
    ensures
        reply@ == fold(op, start, operands@),
{
    if operands.len() == 0 {
        Reply::Value(Expr::Number(start))
    } else {
        Reply::Arith { op, start, operands }
    }
}

pub fn number_add(args: &Vec<Expr>) -> (reply: Reply)
    ensures
        reply@ == add_spec(views(args@)),
{
    match numbers(args) {
        Some(operands) => folded(ArithOp::Add, ZERO, operands),
        None => Reply::Error(Error::Runtime(RuntimeError::WrongType)),
    }
}

pub fn number_sub(args: &Vec<Expr>) -> (reply: Reply)
    ensures
        reply@ == sub_spec(views(args@)),
{
    if args.len() == 0 {
        return Reply::Error(Error::Runtime(RuntimeError::WrongArity));
    }
    match numbers(args) {
        Some(operands) => {
            let start: u64 = operands[0];
            let mut rest: Vec<u64> = Vec::new();
            let mut i: usize = 1;
            while i < operands.len()
                invariant
                    1 <= i <= operands.len(),
                    rest@ == operands@.subrange(1, i as int),
                decreases operands.len() - i,
            {
                rest.push(operands[i]);
                assert(rest@ =~= operands@.subrange(1, i + 1));
                i += 1;
            }
            folded(ArithOp::Sub, start, rest)
        },
        None => Reply::Error(Error::Runtime(RuntimeError::WrongType)),
    }
}

pub fn number_mul(args: &Vec<Expr>) -> (reply: Reply)
    ensures
        reply@ == mul_spec(views(args@)),
{
    match numbers(args) {
        Some(operands) => folded(ArithOp::Mul, ONE, operands),
        None => Reply::Error(Error::Runtime(RuntimeError::WrongType)),
    }
}

/// Check the arguments of a comparison.
fn compared(op: CompareOp, args: &Vec<Expr>) -> (reply: Reply)
    ensures
        reply@ == compare_spec(op, views(args@)),
{
    if args.len() < 2 {
        return Reply::Error(Error::Runtime(RuntimeError::WrongArity));
    }
    match numbers(args) {
        Some(operands) => Reply::Compare { relation: op, operands },
        None => Reply::Error(Error::Runtime(RuntimeError::WrongType)),
    }
}

pub fn number_eq(args: &Vec<Expr>) -> (reply: Reply)
    ensures
        reply@ == compare_spec(CompareOp::Eq, views(args@)),
{
    compared(CompareOp::Eq, args)
}

pub fn number_lt(args: &Vec<Expr>) -> (reply: Reply)
    ensures
        reply@ == compare_spec(CompareOp::Lt, views(args@)),
{
    compared(CompareOp::Lt, args)
}

pub fn number_gt(args: &Vec<Expr>) -> (reply: Reply)
    ensures
        reply@ == compare_spec(CompareOp::Gt, views(args@)),
{
    compared(CompareOp::Gt, args)
}

pub fn number_lt_eq(args: &Vec<Expr>) -> (reply: Reply)
    ensures
        reply@ == compare_spec(CompareOp::LtEq, views(args@)),
{
    compared(CompareOp::LtEq, args)
}

pub fn number_gt_eq(args: &Vec<Expr>) -> (reply: Reply)
    ensures
        reply@ == compare_spec(CompareOp::GtEq, views(args@)),
{
    compared(CompareOp::GtEq, args)
}

/// `(boolean? <value>)`
pub fn boolean_is_boolean(args: &Vec<Expr>) -> (value: Result<Expr, Error>)
    ensures
        value is Ok <==> args@.len() >= 1,
        value matches Ok(v) ==> v@ == ExprView::Bool(args@[0]@ is Bool),
        value matches Err(e) ==> e@ == ErrorView::Runtime(RuntimeError::WrongArity),
{
    if args.len() == 0 {
        return Err(Error::Runtime(RuntimeError::WrongArity));
    }
    Ok(Expr::Bool(args[0].is_boolean()))
}

/// `(not <value>)`: `#t` for `#f`, and `#f` for every other value.
pub fn boolean_not(args: &Vec<Expr>) -> (value: Result<Expr, Error>)
    ensures
        value is Ok <==> args@.len() == 1,
        value matches Ok(v) ==> v@ == ExprView::Bool(args@[0]@ == ExprView::Bool(false)),
        value matches Err(e) ==> e@ == ErrorView::Runtime(RuntimeError::WrongArity),
{
    if args.len() != 1 {
        Err(Error::Runtime(RuntimeError::WrongArity))
    } else {
        match &args[0] {
            Expr::Bool(false) => Ok(Expr::Bool(true)),
            _ => Ok(Expr::Bool(false)),
        }
    }
}

/// The value of `(and <value>...)`: `#f` if one of the values is `#f`,
/// else the last value, else `#t`.
pub open spec fn and_spec(args: Seq<ExprView>) -> ExprView {
    if args.contains(ExprView::Bool(false)) {
        ExprView::Bool(false)
    } else if args.len() == 0 {
        ExprView::Bool(true)
    } else {
        args.last()
    }
}

/// `(and <value>...)`.  The arguments have all been evaluated.
pub fn boolean_and(args: &Vec<Expr>) -> (value: Result<Expr, Error>)
    ensures
        value matches Ok(v) && v@ == and_spec(views(args@)),
{
    let mut i: usize = 0;
    while i < args.len()
        invariant
            i <= args.len(),
            forall|k: int| 0 <= k < i ==> #[trigger] views(args@)[k] != ExprView::Bool(false),
        decreases args.len() - i,
    {
        let is_false = match &args[i] {
            Expr::Bool(false) => true,
            _ => false,
        };
        if is_false {
            // The first `#f` decides.
            assert(views(args@)[i as int] == ExprView::Bool(false));
            return Ok(Expr::Bool(false));
        }
        i += 1;
    }
    if args.len() == 0 {
        Ok(Expr::Bool(true))
    } else {
        Ok(args[args.len() - 1].duplicate())
    }
}

/// `(or <value>...)` is reserved.
pub fn boolean_or(_args: &Vec<Expr>) -> (value: Result<Expr, Error>)
    ensures
        value matches Err(e) && e@ == ErrorView::Unimplemented(Feature::Or),
{
    Err(Error::Unimplemented(Feature::Or))
}

/// A result as a reply.
pub open spec fn replied(value: Result<ExprView, ErrorView>) -> ReplyView {
    match value {
        Ok(v) => ReplyView::Value(v),
        Err(e) => ReplyView::Error(e),
    }
}

fn reply_of(value: Result<Expr, Error>) -> (reply: Reply)
    ensures
        match value {
            Ok(v) => reply@ == ReplyView::Value(v@),
            Err(e) => reply@ == ReplyView::Error(e@),
        },
{
    match value {
        Ok(v) => Reply::Value(v),
        Err(e) => Reply::Error(e),
    }
}

/// What the call of a core function with the given arguments comes to.
pub open spec fn call_spec(builtin: Builtin, args: Seq<ExprView>) -> ReplyView {
    match builtin {
        Builtin::Assert => replied(assert_spec(args)),
        Builtin::AssertEq => assert_eq_spec(args),
        Builtin::Display => if args.len() == 1 {
            ReplyView::Display(repr_of(args[0]))
        } else {
            fails(RuntimeError::WrongArity)
        },
        Builtin::Newline => ReplyView::Newline,
        Builtin::IsNumber => if args.len() >= 1 {
            ReplyView::Value(ExprView::Bool(args[0] is Number))
        } else {
            fails(RuntimeError::WrongArity)
        },
        Builtin::Add => add_spec(args),
        Builtin::Sub => sub_spec(args),
        Builtin::Mul => mul_spec(args),
        Builtin::NumEq => compare_spec(CompareOp::Eq, args),
        Builtin::Lt => compare_spec(CompareOp::Lt, args),
        Builtin::Gt => compare_spec(CompareOp::Gt, args),
        Builtin::LtEq => compare_spec(CompareOp::LtEq, args),
        Builtin::GtEq => compare_spec(CompareOp::GtEq, args),
        Builtin::IsBoolean => if args.len() >= 1 {
            ReplyView::Value(ExprView::Bool(args[0] is Bool))
        } else {
            fails(RuntimeError::WrongArity)
        },
        Builtin::Not => if args.len() == 1 {
            ReplyView::Value(ExprView::Bool(args[0] == ExprView::Bool(false)))
        } else {
            fails(RuntimeError::WrongArity)
        },
        Builtin::And => ReplyView::Value(and_spec(args)),
        Builtin::Or => ReplyView::Error(ErrorView::Unimplemented(Feature::Or)),
    }
}

/// Answer a native call that the virtual machine handed out: the result,
/// or what is left for the host to do.
pub fn call_builtin(func: NativeFunc, args: &Vec<Expr>) -> (reply: Reply)
    ensures
        reply@ == (match Builtin::at(func.0 as int) {
            Some(builtin) => call_spec(builtin, views(args@)),
            None => ReplyView::Unknown,
        }),
{
    match Builtin::of(func) {
        Some(Builtin::Assert) => reply_of(ext_assert(args)),
        Some(Builtin::AssertEq) => ext_assert_eq(args),
        Some(Builtin::Display) => match display(args) {
            Ok(text) => Reply::Display(text),
            Err(error) => Reply::Error(error),
        },
        Some(Builtin::Newline) => Reply::Newline,
        Some(Builtin::IsNumber) => reply_of(number_is_number(args)),
        Some(Builtin::Add) => number_add(args),
        Some(Builtin::Sub) => number_sub(args),
        Some(Builtin::Mul) => number_mul(args),
        Some(Builtin::NumEq) => number_eq(args),
        Some(Builtin::Lt) => number_lt(args),
        Some(Builtin::Gt) => number_gt(args),
        Some(Builtin::LtEq) => number_lt_eq(args),
        Some(Builtin::GtEq) => number_gt_eq(args),
        Some(Builtin::IsBoolean) => reply_of(boolean_is_boolean(args)),
        Some(Builtin::Not) => reply_of(boolean_not(args)),
        Some(Builtin::And) => reply_of(boolean_and(args)),
        Some(Builtin::Or) => reply_of(boolean_or(args)),
        None => Reply::Unknown,
    }
}

} // verus!
