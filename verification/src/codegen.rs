//! What the compiler produces: the bytecode of expressions as a
//! mathematical function of the compiler's state.
//!
//! The executable compiler in `compiler` is proved to compute exactly these
//! functions.
use vstd::prelude::*;

use crate::env::EnvView;
use crate::error::{CompileError, ErrorView, Feature};
use crate::expr::{expr_eq, ClosureId, ClosureView, ExprView, Keyword, ProcView, Signature};
use crate::limits::{MAX_ARGS, MAX_JUMP_ADDR, MAX_LOCALS, MAX_TABLE, MAX_UP_VALUES};
use crate::opcode::{ConstantId, JumpAddr, LocalId, Op, ProcId, SymbolId, UpValueId, UpValueOrigin};
use crate::symbol::position;

verus! {

/// Where in a program the compiler is.  It decides what `define` means.
#[derive(Debug, Clone, Copy, PartialEq, Eq, Structural)]
pub enum Context {
    /// The body of the program: `define` makes a variable of the environment.
    TopLevel,
    /// The start of a procedure body: `define` makes a local.
    BodyStart,
    /// After the first expression of a procedure body: `define` is an error.
    BodyRest,
}

/// A local variable that is in scope.
pub struct LocalView {
    /// The slot of the variable in the call frame of its procedure.
    pub id: LocalId,
    pub name: Seq<char>,
    /// The nesting depth of the procedure that declared the variable.
    pub depth: nat,
}

/// A procedure under construction.
pub struct ProcStateView {
    pub code: Seq<Op>,
    pub arity: nat,
    pub variadic: bool,
    pub constants: Seq<ExprView>,
    /// The variables of enclosing procedures that the procedure refers
    /// to, in the order in which the compiler came across them.
    pub up_values: Seq<UpValueOrigin>,
    /// The largest number of locals that were in scope at one time.
    pub local_count: nat,
}

impl ProcStateView {
    /// A procedure without code.
    pub open spec fn empty() -> ProcStateView {
        ProcStateView {
            code: Seq::empty(),
            arity: 0,
            variadic: false,
            constants: Seq::empty(),
            up_values: Seq::empty(),
            local_count: 0,
        }
    }

    /// The procedure with one more instruction.
    pub open spec fn emit(self, op: Op) -> ProcStateView {
        ProcStateView { code: self.code.push(op), ..self }
    }

    /// The finished prototype.
    pub open spec fn finish(self) -> ProcView {
        ProcView {
            code: self.code,
            sig: Signature { arity: self.arity as u8, variadic: self.variadic },
            constants: self.constants,
            local_count: self.local_count,
            up_value_count: self.up_values.len(),
        }
    }
}

/// The state of the compiler.
pub struct CompilerView {
    /// The procedure being compiled.
    pub proc: ProcStateView,
    /// The enclosing procedures, outermost first.
    pub proc_stack: Seq<ProcStateView>,
    pub context: Context,
    /// The nesting depth of the procedure being compiled; the program is at depth 0.
    pub depth: nat,
    /// The locals in scope, those of the outermost procedure first.
    pub locals: Seq<LocalView>,
    /// The index in `locals` where the locals of the procedure being compiled start.
    pub stack_offset: nat,
}

impl CompilerView {
    /// The compiler at the start of a program.
    pub open spec fn start() -> CompilerView {
        CompilerView {
            proc: ProcStateView::empty(),
            proc_stack: Seq::empty(),
            context: Context::TopLevel,
            depth: 0,
            locals: Seq::empty(),
            stack_offset: 0,
        }
    }

    /// The compiler after one more instruction of the current procedure.
    pub open spec fn emit(self, op: Op) -> CompilerView {
        CompilerView { proc: self.proc.emit(op), ..self }
    }

    /// The relations between the parts of the state that every step keeps.
    pub open spec fn wf(self) -> bool {
        &&& self.depth == self.proc_stack.len()
        &&& self.stack_offset <= self.locals.len()
        &&& self.locals.len() - self.stack_offset <= MAX_LOCALS
        &&& self.proc.up_values.len() <= MAX_UP_VALUES
        &&& self.proc.constants.len() <= MAX_TABLE
        &&& self.proc.arity <= MAX_ARGS
        &&& forall|i: int|
            0 <= i < self.proc_stack.len() ==> (#[trigger] self.proc_stack[i]).up_values.len()
                <= MAX_UP_VALUES
        &&& forall|i: int| 0 <= i < self.locals.len() ==> (#[trigger] self.locals[i]).depth <= self.depth
    }
}

/// The environment and the compiler: the state that compiling threads through.
pub struct Unit {
    pub env: EnvView,
    pub c: CompilerView,
}

/// The result of a step of the compiler: the state after it and the error
/// that stopped it, if one did.  After an error only the environment is meaningful.
pub struct Compiled {
    pub unit: Unit,
    pub error: Option<ErrorView>,
}

/// A step that went through.
pub open spec fn done(unit: Unit) -> Compiled {
    Compiled { unit, error: None }
}

/// A step that failed.
pub open spec fn stopped(unit: Unit, kind: CompileError) -> Compiled {
    Compiled { unit, error: Some(ErrorView::Compile(kind, Seq::empty())) }
}

/// A step that failed over a name.
pub open spec fn stopped_at(unit: Unit, kind: CompileError, name: Seq<char>) -> Compiled {
    Compiled { unit, error: Some(ErrorView::Compile(kind, name)) }
}

/// A step that met a form the compiler does not support.
pub open spec fn unsupported(unit: Unit, feature: Feature) -> Compiled {
    Compiled { unit, error: Some(ErrorView::Unimplemented(feature)) }
}

/// The state after one more instruction of the current procedure.
pub open spec fn emitted(unit: Unit, op: Op) -> Unit {
    Unit { c: unit.c.emit(op), ..unit }
}

/// The position of the first constant at or after `from` that equals `value`.
#[verifier::opaque]
pub open spec fn constant_position(constants: Seq<ExprView>, value: ExprView, from: nat) -> Option<
    nat,
>
    decreases constants.len() - from,
{
    if from >= constants.len() {
        None
    } else if expr_eq(constants[from as int], value) {
        Some(from)
    } else {
        constant_position(constants, value, from + 1)
    }
}

/// Add a constant to the current procedure, or find it there if an equal
/// constant exists.  The result is the state and the identifier.
#[verifier::opaque]
pub open spec fn add_constant(c: CompilerView, value: ExprView) -> (CompilerView, Option<ConstantId>) {
    match constant_position(c.proc.constants, value, 0) {
        Some(index) => (c, Some(ConstantId(index as u16))),
        None => if c.proc.constants.len() < MAX_TABLE {
            (
                CompilerView {
                    proc: ProcStateView { constants: c.proc.constants.push(value), ..c.proc },
                    ..c
                },
                Some(ConstantId(c.proc.constants.len() as u16)),
            )
        } else {
            (c, None)
        },
    }
}

/// Whether one of the locals `locals[..upto]` that the procedure at `depth`
/// declared has the given name.  The locals of one procedure stand together
/// at the end.
#[verifier::opaque]
pub open spec fn declared(locals: Seq<LocalView>, name: Seq<char>, depth: nat, upto: nat) -> bool
    decreases upto,
{
    if upto == 0 || upto > locals.len() {
        false
    } else if locals[upto - 1].depth != depth {
        false
    } else if locals[upto - 1].name == name {
        true
    } else {
        declared(locals, name, depth, (upto - 1) as nat)
    }
}

/// Declare a local of the current procedure.
#[verifier::opaque]
pub open spec fn declare_local(c: CompilerView, name: Seq<char>) -> Result<
    (CompilerView, LocalId),
    CompileError,
> {
    let index = c.locals.len() - c.stack_offset;
    if declared(c.locals, name, c.depth, c.locals.len()) {
        Err(CompileError::DuplicateLocal)
    } else if index >= MAX_LOCALS || index < 0 {
        Err(CompileError::TooManyLocals)
    } else {
        let id = LocalId(index as u8);
        let count = if index + 1 > c.proc.local_count {
            (index + 1) as nat
        } else {
            c.proc.local_count
        };
        Ok(
            (
                CompilerView {
                    locals: c.locals.push(LocalView { id, name, depth: c.depth }),
                    proc: ProcStateView { local_count: count, ..c.proc },
                    ..c
                },
                id,
            ),
        )
    }
}

/// The position of the innermost local among `locals[..upto]` with the given name.
#[verifier::opaque]
pub open spec fn local_position(locals: Seq<LocalView>, name: Seq<char>, upto: nat) -> Option<nat>
    decreases upto,
{
    if upto == 0 || upto > locals.len() {
        None
    } else if locals[upto - 1].name == name {
        Some((upto - 1) as nat)
    } else {
        local_position(locals, name, (upto - 1) as nat)
    }
}

/// The position of the first up-value at or after `from` with the given origin.
#[verifier::opaque]
pub open spec fn origin_position(origins: Seq<UpValueOrigin>, origin: UpValueOrigin, from: nat) -> Option<
    nat,
>
    decreases origins.len() - from,
{
    if from >= origins.len() {
        None
    } else if origins[from as int] == origin {
        Some(from)
    } else {
        origin_position(origins, origin, from + 1)
    }
}

/// Make a procedure capture a variable, or find the capture if the procedure
/// has it already.  The result is the procedure and the index of the up-value.
#[verifier::opaque]
pub open spec fn add_up_value(proc: ProcStateView, origin: UpValueOrigin) -> (
    ProcStateView,
    Option<UpValueId>,
) {
    match origin_position(proc.up_values, origin, 0) {
        Some(index) => (proc, Some(UpValueId(index as u8))),
        None => if proc.up_values.len() < MAX_UP_VALUES {
            (
                ProcStateView { up_values: proc.up_values.push(origin), ..proc },
                Some(UpValueId(proc.up_values.len() as u8)),
            )
        } else {
            (proc, None)
        },
    }
}

/// The procedure at a nesting level: one of the enclosing procedures, or
/// the current one at the deepest level.
pub open spec fn proc_at(c: CompilerView, level: nat) -> ProcStateView {
    if level < c.proc_stack.len() {
        c.proc_stack[level as int]
    } else {
        c.proc
    }
}

/// The compiler with the procedure at a nesting level replaced.
pub open spec fn with_proc_at(c: CompilerView, level: nat, proc: ProcStateView) -> CompilerView {
    if level < c.proc_stack.len() {
        CompilerView { proc_stack: c.proc_stack.update(level as int, proc), ..c }
    } else {
        CompilerView { proc, ..c }
    }
}

/// Hand a variable down from the procedure that owns it to the current one:
/// every procedure from `level` to the current one captures it, the first
/// from the locals of its parent, the others from the up-values of theirs.
/// The result is the state and the up-value of the current procedure.
#[verifier::opaque]
pub open spec fn capture_chain(c: CompilerView, level: nat, origin: UpValueOrigin) -> (
    CompilerView,
    Option<UpValueId>,
)
    decreases c.depth + 1 - level,
{
    if level > c.depth {
        (c, None)
    } else {
        let (proc, index) = add_up_value(proc_at(c, level), origin);
        let next = with_proc_at(c, level, proc);
        match index {
            Some(id) => if level == c.depth {
                (next, Some(id))
            } else {
                capture_chain(next, level + 1, UpValueOrigin::Outer(id))
            },
            None => (next, None),
        }
    }
}

/// How an identifier is reached.
#[derive(Debug, Clone, Copy, PartialEq, Eq, Structural)]
pub enum Variable {
    /// A local of the current procedure.
    Local(LocalId),
    /// A local of an enclosing procedure, captured as an up-value.
    UpValue(UpValueId),
    /// A variable of the environment.
    Symbol(SymbolId),
}

/// Find a variable: among the locals of the current procedure, then among
/// those of the enclosing procedures, then in the environment.  Reaching a
/// local of an enclosing procedure makes every procedure in between capture it.
#[verifier::opaque]
pub open spec fn resolve(unit: Unit, name: Seq<char>) -> (Unit, Option<Variable>) {
    let c = unit.c;
    match local_position(c.locals, name, c.locals.len()) {
        Some(index) => {
            let local = c.locals[index as int];
            if local.depth >= c.depth {
                (unit, Some(Variable::Local(local.id)))
            } else {
                let (next, up) = capture_chain(
                    c,
                    local.depth + 1,
                    UpValueOrigin::Parent(local.id),
                );
                (
                    Unit { c: next, ..unit },
                    match up {
                        Some(id) => Some(Variable::UpValue(id)),
                        None => None,
                    },
                )
            }
        },
        None => match position(unit.env.names, name) {
            Some(index) => (unit, Some(Variable::Symbol(SymbolId(index as u16)))),
            None => (unit, None),
        },
    }
}

/// The instruction that loads a variable.
pub open spec fn load_op(variable: Variable) -> Op {
    match variable {
        Variable::Local(id) => Op::LoadLocalVar(id),
        Variable::UpValue(id) => Op::LoadUpValue(id),
        Variable::Symbol(id) => Op::LoadEnvVar(id),
    }
}

/// Compile the access to a variable: the variable is resolved and the
/// instruction that loads it is emitted.  A name that resolves to nothing is
/// unbound; a local of an enclosing procedure that cannot be captured, for
/// want of room among the up-values, stops the compiler too.
#[verifier::opaque]
pub open spec fn compile_access(unit: Unit, name: Seq<char>) -> Compiled {
    let (next, variable) = resolve(unit, name);
    match variable {
        Some(v) => done(emitted(next, load_op(v))),
        None => if local_position(unit.c.locals, name, unit.c.locals.len()) is Some {
            stopped(next, CompileError::TooManyUpValues)
        } else {
            stopped_at(unit, CompileError::UnboundVariable, name)
        },
    }
}

/// What every step of the compiler keeps of the state it finds: the
/// nesting, the context and the signature of the current procedure stay, and
/// code and locals only grow.
pub open spec fn extends(before: CompilerView, after: CompilerView) -> bool {
    &&& after.depth == before.depth
    &&& after.stack_offset == before.stack_offset
    &&& after.proc_stack.len() == before.proc_stack.len()
    &&& after.context == before.context
    &&& after.proc.arity == before.proc.arity
    &&& after.proc.variadic == before.proc.variadic
    &&& after.proc.code.len() >= before.proc.code.len()
    &&& after.locals.len() >= before.locals.len()
    &&& forall|i: int|
        0 <= i < before.locals.len() ==> #[trigger] after.locals[i] == before.locals[i]
    &&& forall|i: int|
        0 <= i < before.proc_stack.len() ==> kept(
            before.proc_stack[i],
            #[trigger] after.proc_stack[i],
        )
}

/// What a step of the compiler keeps of an enclosing procedure: all but
/// the variables it captures, which only get more.
pub open spec fn kept(before: ProcStateView, after: ProcStateView) -> bool {
    &&& after.code == before.code
    &&& after.arity == before.arity
    &&& after.variadic == before.variadic
    &&& after.constants == before.constants
    &&& after.local_count == before.local_count
    &&& after.up_values.len() >= before.up_values.len()
}

/// The forms that the compiler lowers itself instead of compiling a call.
#[derive(Debug, Clone, Copy, PartialEq, Eq, Structural)]
pub enum Special {
    Define,
    Lambda,
    If,
    /// A form the language reserves and the compiler does not support.
    Reserved(Feature),
}

/// The special form that an operator name stands for.
#[verifier::opaque]
pub open spec fn special_form(name: Seq<char>) -> Option<Special> {
    if name == "define"@ {
        Some(Special::Define)
    } else if name == "lambda"@ {
        Some(Special::Lambda)
    } else if name == "if"@ {
        Some(Special::If)
    } else if name == "let"@ {
        Some(Special::Reserved(Feature::Let))
    } else if name == "let*"@ {
        Some(Special::Reserved(Feature::LetStar))
    } else if name == "letrec"@ {
        Some(Special::Reserved(Feature::LetRec))
    } else if name == "fluid-let"@ {
        Some(Special::Reserved(Feature::FluidLet))
    } else if name == "set!"@ {
        Some(Special::Reserved(Feature::SetBang))
    } else if name == "quote"@ {
        Some(Special::Reserved(Feature::Quote))
    } else if name == "define-syntax"@ {
        Some(Special::Reserved(Feature::DefineSyntax))
    } else {
        None
    }
}

/// The special form that a list is, going by its first item.
pub open spec fn special_of(list: Seq<ExprView>) -> Option<Special> {
    if list.len() > 0 {
        match list[0] {
            ExprView::Ident(name) => special_form(name),
            _ => None,
        }
    } else {
        None
    }
}

/// Push a literal through the constant table of the current procedure.
#[verifier::opaque]
pub open spec fn compile_constant(unit: Unit, value: ExprView) -> Compiled {
    let (c, id) = add_constant(unit.c, value);
    match id {
        Some(id) => done(emitted(Unit { c, ..unit }, Op::PushConstant(id))),
        None => stopped(unit, CompileError::TooManyConstants),
    }
}

/// The state with an instruction of the current procedure replaced, if the
/// procedure has an instruction at that address.
pub open spec fn patched(unit: Unit, at: nat, op: Op) -> Unit {
    if at < unit.c.proc.code.len() {
        Unit {
            c: CompilerView {
                proc: ProcStateView {
                    code: unit.c.proc.code.update(at as int, op),
                    ..unit.c.proc
                },
                ..unit.c
            },
            ..unit
        }
    } else {
        unit
    }
}

/// The state with another context.
pub open spec fn in_context(unit: Unit, context: Context) -> Unit {
    Unit { c: CompilerView { context, ..unit.c }, ..unit }
}

/// The compiler on entry to a procedure: the current procedure is set
/// aside and a new one begun, one level deeper, with no locals yet.
pub open spec fn open_scope(c: CompilerView) -> CompilerView {
    CompilerView {
        proc: ProcStateView::empty(),
        proc_stack: c.proc_stack.push(c.proc),
        context: c.context,
        depth: c.depth + 1,
        locals: c.locals,
        stack_offset: c.locals.len(),
    }
}

/// What the compiler keeps of its state while it compiles a procedure, to
/// put it back on exit.
pub struct ScopeView {
    pub stack_offset: nat,
    pub context: Context,
    /// The number of locals in scope on entry.
    pub locals: nat,
}

/// What is kept of a state on entry to a procedure.
pub open spec fn scope_of(c: CompilerView) -> ScopeView {
    ScopeView { stack_offset: c.stack_offset, context: c.context, locals: c.locals.len() }
}

/// The compiler on exit from a procedure: the enclosing procedure is
/// current again and the locals of the finished one are out of scope.
pub open spec fn close_scope(c: CompilerView, saved: ScopeView) -> CompilerView {
    CompilerView {
        proc: c.proc_stack.last(),
        proc_stack: c.proc_stack.drop_last(),
        context: saved.context,
        depth: (c.depth - 1) as nat,
        locals: c.locals.subrange(0, saved.locals as int),
        stack_offset: saved.stack_offset,
    }
}

/// Declare the formals `params[from..]` of the current procedure.  A dot
/// makes the procedure variadic; the formal after it takes the surplus
/// arguments and is the last one read.
#[verifier::opaque]
pub open spec fn declare_params(c: CompilerView, params: Seq<ExprView>, from: nat) -> Result<
    CompilerView,
    (CompileError, Seq<char>),
>
    decreases params.len() - from,
{
    if from >= params.len() {
        Ok(c)
    } else {
        match params[from as int] {
            ExprView::Ident(name) => match declare_local(c, name) {
                Ok((next, _)) => if c.proc.variadic {
                    Ok(next)
                } else if c.proc.arity >= MAX_ARGS {
                    Err((CompileError::TooManyLocals, Seq::empty()))
                } else {
                    declare_params(
                        CompilerView {
                            proc: ProcStateView { arity: c.proc.arity + 1, ..next.proc },
                            ..next
                        },
                        params,
                        from + 1,
                    )
                },
                Err(kind) => Err((kind, name)),
            },
            ExprView::Keyword(Keyword::Dot) => declare_params(
                CompilerView { proc: ProcStateView { variadic: true, ..c.proc }, ..c },
                params,
                from + 1,
            ),
            _ => Err((CompileError::ParameterNotIdentifier, Seq::empty())),
        }
    }
}

/// Declare the formals of the current procedure: a single identifier takes
/// all arguments as a list; a list names the arguments, from `skip` on.
#[verifier::opaque]
pub open spec fn declare_formals(c: CompilerView, formals: ExprView, skip: nat) -> Result<
    CompilerView,
    (CompileError, Seq<char>),
> {
    match formals {
        ExprView::Ident(name) => match declare_local(
            CompilerView { proc: ProcStateView { variadic: true, ..c.proc }, ..c },
            name,
        ) {
            Ok((next, _)) => Ok(next),
            Err(kind) => Err((kind, name)),
        },
        ExprView::List(params) => declare_params(c, params, skip),
        _ => Err((CompileError::ParameterNotIdentifier, Seq::empty())),
    }
}

/// Emit one capture instruction for each of `origins[from..]`.
#[verifier::opaque]
pub open spec fn emit_captures(c: CompilerView, origins: Seq<UpValueOrigin>, from: nat) -> CompilerView
    decreases origins.len() - from,
{
    if from >= origins.len() {
        c
    } else {
        emit_captures(c.emit(Op::CaptureValue(origins[from as int])), origins, from + 1)
    }
}

/// Whether an expression is a list headed by the identifier `name`.
#[verifier::opaque]
pub open spec fn headed_by(e: ExprView, name: Seq<char>) -> bool {
    match e {
        ExprView::List(list) => list.len() > 0 && list[0] == ExprView::Ident(name),
        _ => false,
    }
}

/// The length of the code of the current procedure.
pub open spec fn code_len(unit: Unit) -> nat {
    unit.c.proc.code.len()
}

/// Before the value of a definition is compiled: at the top level the name
/// is interned, so that the value can refer to it.  The result is the state
/// and the symbol, or nothing if the name cannot be interned.
#[verifier::opaque]
pub open spec fn define_prepare(unit: Unit, name: Seq<char>) -> Option<(Unit, Option<SymbolId>)> {
    if unit.c.context == Context::TopLevel {
        if unit.env.can_intern(name) {
            let env = unit.env.intern(name);
            Some((Unit { env, ..unit }, env.resolve(name)))
        } else {
            None
        }
    } else {
        Some((unit, None))
    }
}

/// After the value of a definition is compiled.  At the top level the value
/// goes to the variable of the environment and the form evaluates to void.
/// At the start of a body the name becomes a local and takes the value.
/// Anywhere else the definition is an error.
#[verifier::opaque]
pub open spec fn define_finish(
    context: Context,
    symbol: Option<SymbolId>,
    unit: Unit,
    name: Seq<char>,
) -> Compiled {
    match context {
        Context::TopLevel => match symbol {
            Some(symbol) => done(
                emitted(emitted(emitted(unit, Op::StoreEnvVar(symbol)), Op::Pop), Op::PushVoid),
            ),
            None => stopped(unit, CompileError::TooManySymbols),
        },
        Context::BodyStart => match declare_local(unit.c, name) {
            Ok((c, id)) => done(emitted(Unit { c, ..unit }, Op::StoreLocalVar(id))),
            Err(kind) => stopped_at(unit, kind, name),
        },
        Context::BodyRest => stopped(unit, CompileError::DefineInBodyRest),
    }
}

/// On entry to a procedure: a new scope is opened and the formals are declared.
#[verifier::opaque]
pub open spec fn lambda_enter(unit: Unit, formals: ExprView, skip: nat) -> Result<Unit, ErrorView> {
    match declare_formals(open_scope(unit.c), formals, skip) {
        Ok(inner) => Ok(Unit { c: inner, ..unit }),
        Err((kind, name)) => Err(ErrorView::Compile(kind, name)),
    }
}

/// On exit from a procedure, after its body: the procedure returns the
/// value of the body; the prototype is added to the environment; the
/// enclosing procedure gets the instruction that makes a closure of it,
/// followed by one capture instruction for each variable the procedure takes
/// from outside.
#[verifier::opaque]
pub open spec fn lambda_exit(saved: ScopeView, unit: Unit) -> Compiled {
    if unit.env.procedures.len() >= MAX_TABLE {
        stopped(unit, CompileError::TooManyProcedures)
    } else {
        let finished = unit.c.emit(Op::Return);
        let id = ProcId(unit.env.procedures.len() as u16);
        done(
            Unit {
                env: EnvView {
                    procedures: unit.env.procedures.push(finished.proc.finish()),
                    ..unit.env
                },
                c: emit_captures(
                    close_scope(finished, saved).emit(Op::CreateClosure(id)),
                    finished.proc.up_values,
                    0,
                ),
            },
        )
    }
}

/// After the test of a conditional: the jump over the consequent, with its
/// target still open, and the pop of the tested value.
#[verifier::opaque]
pub open spec fn if_begin(unit: Unit) -> Unit {
    emitted(emitted(unit, Op::JumpFalse(JumpAddr(0, 0, 0))), Op::Pop)
}

/// After the consequent of a conditional: the jump over the alternative,
/// with its target still open; the jump at `branch` gets its target, the
/// instruction after that jump; and the tested value is popped on this path too.
#[verifier::opaque]
pub open spec fn if_middle(branch: nat, unit: Unit) -> Compiled {
    let skipped = emitted(unit, Op::Jump(JumpAddr(0, 0, 0)));
    let otherwise = code_len(skipped);
    if otherwise >= MAX_JUMP_ADDR {
        stopped(skipped, CompileError::JumpTooFar)
    } else {
        done(
            emitted(
                patched(skipped, branch, Op::JumpFalse(JumpAddr::encode(otherwise as usize))),
                Op::Pop,
            ),
        )
    }
}

/// After the alternative of a conditional: the jump at `skip` gets its
/// target, the end of the form.
#[verifier::opaque]
pub open spec fn if_end(skip: nat, unit: Unit) -> Compiled {
    let end = code_len(unit);
    if end >= MAX_JUMP_ADDR {
        stopped(unit, CompileError::JumpTooFar)
    } else {
        done(patched(unit, skip, Op::Jump(JumpAddr::encode(end as usize))))
    }
}

/// Compile an expression: the instructions that leave its value on the stack.
pub open spec fn compile_expr(unit: Unit, e: ExprView) -> Compiled
    decreases e, 0nat, 0nat,
{
    match e {
        ExprView::Nil => done(emitted(unit, Op::PushNil)),
        ExprView::Number(_) => compile_constant(unit, e),
        ExprView::String(_) => compile_constant(unit, e),
        ExprView::Bool(b) => done(
            emitted(
                unit,
                if b {
                    Op::PushTrue
                } else {
                    Op::PushFalse
                },
            ),
        ),
        ExprView::Ident(name) => compile_access(unit, name),
        ExprView::List(list) => compile_form(unit, list),
        ExprView::Sequence(items) => compile_sequence(unit, items, 0),
        _ => unsupported(unit, Feature::Literal),
    }
}

/// Compile the expressions `items[from..]` one after the other.  Only the
/// value of the last one stays on the stack.
pub open spec fn compile_sequence(unit: Unit, items: Seq<ExprView>, from: nat) -> Compiled
    decreases items, 0nat, items.len() - from,
{
    if from >= items.len() {
        done(unit)
    } else {
        let first = compile_expr(unit, items[from as int]);
        if first.error is Some || from + 1 == items.len() {
            first
        } else {
            compile_sequence(emitted(first.unit, Op::Pop), items, from + 1)
        }
    }
}

/// Compile a list: a special form, or else a call.
pub open spec fn compile_form(unit: Unit, list: Seq<ExprView>) -> Compiled
    decreases list, 2nat, 0nat,
{
    match special_of(list) {
        Some(Special::Define) => compile_define_form(unit, list),
        Some(Special::Lambda) => compile_lambda_form(unit, list),
        Some(Special::If) => compile_if_form(unit, list),
        Some(Special::Reserved(feature)) => unsupported(unit, feature),
        None => compile_call(unit, list),
    }
}

/// Compile the arguments `list[from..]` of a call, left to right.
pub open spec fn compile_args(unit: Unit, list: Seq<ExprView>, from: nat) -> Compiled
    decreases list, 0nat, list.len() - from,
{
    if from >= list.len() {
        done(unit)
    } else {
        let first = compile_expr(unit, list[from as int]);
        if first.error is Some {
            first
        } else {
            compile_args(first.unit, list, from + 1)
        }
    }
}

/// Compile a call: the callee is loaded, then the arguments are computed
/// left to right, then the call is made.  One instruction serves native
/// functions and closures alike.
pub open spec fn compile_call(unit: Unit, list: Seq<ExprView>) -> Compiled
    decreases list, 1nat, 0nat,
{
    if list.len() == 0 {
        stopped(unit, CompileError::IllFormedExpression)
    } else {
        match list[0] {
            ExprView::Ident(name) => if list.len() - 1 > MAX_ARGS {
                stopped(unit, CompileError::TooManyArguments)
            } else {
                let callee = compile_access(unit, name);
                if callee.error is Some {
                    callee
                } else {
                    let args = compile_args(callee.unit, list, 1);
                    if args.error is Some {
                        args
                    } else {
                        done(emitted(args.unit, Op::CallNative { arity: (list.len() - 1) as u8 }))
                    }
                }
            },
            _ => stopped(unit, CompileError::OperatorNotProcedure),
        }
    }
}

/// Compile the value of a definition `list`: the procedure with the formals
/// `formals[1..]` and the body `list[2..]` if `formals` is given, else the
/// expression `list[2]`, else the empty list.
pub open spec fn compile_defined(unit: Unit, list: Seq<ExprView>, formals: Option<ExprView>) -> Compiled
    decreases list, 0nat, list.len() + 4,
{
    match formals {
        Some(formals) => compile_lambda(unit, formals, 1, list, 2),
        None => if list.len() > 2 {
            compile_expr(unit, list[2])
        } else {
            done(emitted(unit, Op::PushNil))
        },
    }
}

/// Compile the definition of `name`: the name is prepared, the value
/// compiled, and the value stored.
pub open spec fn compile_definition(
    unit: Unit,
    name: Seq<char>,
    list: Seq<ExprView>,
    formals: Option<ExprView>,
) -> Compiled
    decreases list, 0nat, list.len() + 5,
{
    match define_prepare(unit, name) {
        Some((prepared, symbol)) => {
            let value = compile_defined(prepared, list, formals);
            if value.error is Some {
                value
            } else {
                define_finish(unit.c.context, symbol, value.unit, name)
            }
        },
        None => stopped(unit, CompileError::TooManySymbols),
    }
}

/// Compile `(define name value)` or `(define (name formals...) body...)`.
pub open spec fn compile_define_form(unit: Unit, list: Seq<ExprView>) -> Compiled
    decreases list, 1nat, 0nat,
{
    if list.len() < 2 {
        stopped(unit, CompileError::IdentifierExpected)
    } else {
        match list[1] {
            ExprView::Ident(name) => compile_definition(unit, name, list, None),
            ExprView::List(formals) => if formals.len() > 0 {
                match formals[0] {
                    ExprView::Ident(name) => compile_definition(unit, name, list, Some(list[1])),
                    _ => stopped(unit, CompileError::IllFormedSpecialForm),
                }
            } else {
                stopped(unit, CompileError::IllFormedSpecialForm)
            },
            _ => stopped(unit, CompileError::IllFormedSpecialForm),
        }
    }
}

/// Compile `(lambda formals body...)`.
pub open spec fn compile_lambda_form(unit: Unit, list: Seq<ExprView>) -> Compiled
    decreases list, 1nat, 0nat,
{
    if list.len() < 2 {
        stopped(unit, CompileError::IllFormedSpecialForm)
    } else {
        compile_lambda(unit, list[1], 0, list, 2)
    }
}

/// Compile a procedure with the given formals and the body `body[from..]`.
pub open spec fn compile_lambda(
    unit: Unit,
    formals: ExprView,
    skip: nat,
    body: Seq<ExprView>,
    from: nat,
) -> Compiled
    decreases body, 0nat, body.len() + 3,
{
    match lambda_enter(unit, formals, skip) {
        Ok(inner) => {
            let compiled = compile_body(inner, body, from);
            if compiled.error is Some {
                compiled
            } else {
                lambda_exit(scope_of(unit.c), compiled.unit)
            }
        },
        Err(error) => Compiled { unit, error: Some(error) },
    }
}

/// Compile the definitions `body[from..]` at the start of a body.  The
/// result is the state and the index of the first item that is no definition.
pub open spec fn compile_defines(unit: Unit, body: Seq<ExprView>, from: nat) -> (Compiled, nat)
    decreases body, 0nat, body.len() + 1 - from,
{
    if from >= body.len() {
        (done(unit), from)
    } else {
        match body[from as int] {
            ExprView::List(definition) => if headed_by(body[from as int], "define"@) {
                let defined = compile_define_form(unit, definition);
                if defined.error is Some {
                    (defined, from)
                } else {
                    compile_defines(defined.unit, body, from + 1)
                }
            } else if headed_by(body[from as int], "define-syntax"@) {
                (unsupported(unit, Feature::DefineSyntax), from)
            } else {
                (done(unit), from)
            },
            _ => (done(unit), from),
        }
    }
}

/// Compile the body `body[from..]` of a procedure: definitions first, then
/// expressions, of which the last gives the value.
pub open spec fn compile_body(unit: Unit, body: Seq<ExprView>, from: nat) -> Compiled
    decreases body, 0nat, body.len() + 2,
{
    if from > body.len() {
        done(unit)
    } else {
        let (defined, rest) = compile_defines(in_context(unit, Context::BodyStart), body, from);
        if defined.error is Some || rest > body.len() {
            defined
        } else {
            let compiled = compile_sequence(
                in_context(defined.unit, Context::BodyRest),
                body,
                rest,
            );
            if compiled.error is Some {
                compiled
            } else {
                done(in_context(compiled.unit, unit.c.context))
            }
        }
    }
}

/// Compile `(if test consequent alternative)`; without an alternative the
/// form is void when the test fails.  The tested value stays on the stack
/// across the jump and is popped on either path.
pub open spec fn compile_if_form(unit: Unit, list: Seq<ExprView>) -> Compiled
    decreases list, 1nat, 0nat,
{
    if list.len() < 3 || list.len() > 4 {
        stopped(unit, CompileError::IllFormedSpecialForm)
    } else {
        let test = compile_expr(unit, list[1]);
        if test.error is Some {
            test
        } else {
            let consequent = compile_expr(if_begin(test.unit), list[2]);
            if consequent.error is Some {
                consequent
            } else {
                let middle = if_middle(code_len(test.unit), consequent.unit);
                if middle.error is Some {
                    middle
                } else {
                    let alternative = if list.len() == 4 {
                        compile_expr(middle.unit, list[3])
                    } else {
                        done(emitted(middle.unit, Op::PushVoid))
                    };
                    if alternative.error is Some {
                        alternative
                    } else {
                        if_end(code_len(consequent.unit), alternative.unit)
                    }
                }
            }
        }
    }
}

/// Compile a program: the expression, then the instruction that ends the
/// program.  The prototype goes into the environment and a closure of it
/// onto the heap; the result is the handle of that closure.
pub open spec fn compile(env: EnvView, e: ExprView) -> (EnvView, Result<ClosureId, ErrorView>) {
    let compiled = compile_expr(Unit { env, c: CompilerView::start() }, e);
    match compiled.error {
        Some(error) => (compiled.unit.env, Err(error)),
        None => {
            let finished = compiled.unit.c.emit(Op::End);
            let env = compiled.unit.env;
            if env.procedures.len() >= MAX_TABLE {
                (env, Err(ErrorView::Compile(CompileError::TooManyProcedures, Seq::empty())))
            } else {
                (
                    EnvView {
                        procedures: env.procedures.push(finished.proc.finish()),
                        closures: env.closures.push(
                            ClosureView {
                                proc: ProcId(env.procedures.len() as u16),
                                up_values: Seq::empty(),
                            },
                        ),
                        ..env
                    },
                    Ok(ClosureId(env.closures.len() as usize)),
                )
            }
        },
    }
}

} // verus!
