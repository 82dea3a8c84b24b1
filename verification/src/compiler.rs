//! The compiler: one pass over an expression tree that emits bytecode.
use vstd::prelude::*;
use smol_str::SmolStr;

use crate::codegen;
use crate::codegen::{
    add_constant, add_up_value, capture_chain, constant_position, declare_local, declared,
    extends, kept, local_position, origin_position, proc_at, with_proc_at, Compiled, CompilerView,
    Context, LocalView, ProcStateView, ScopeView, Special, Unit, Variable,
};
use crate::env::{Env, EnvView};
use crate::error::{CompileError, Error, ErrorView, Feature};
use crate::expr::{group_views, views, Closure, ClosureId, Expr, Keyword, Proc, Signature};
use crate::limits::{MAX_ARGS, MAX_LOCALS, MAX_TABLE, MAX_UP_VALUES};
use crate::opcode::{
    ConstantId, JumpAddr, LocalId, Op, SymbolId, UpValueId, UpValueOrigin,
};
use crate::smol::{smol_new, smol_text};
use crate::text::str_eq;

verus! {

broadcast use group_views;

impl Context {
    pub fn is_top_level(&self) -> (b: bool)
        ensures
            b == (*self == Context::TopLevel),
    {
        match self {
            Context::TopLevel => true,
            _ => false,
        }
    }

    pub fn is_body_start(&self) -> (b: bool)
        ensures
            b == (*self == Context::BodyStart),
    {
        match self {
            Context::BodyStart => true,
            _ => false,
        }
    }

    pub fn is_body_rest(&self) -> (b: bool)
        ensures
            b == (*self == Context::BodyRest),
    {
        match self {
            Context::BodyRest => true,
            _ => false,
        }
    }
}

/// Slot of a local variable on the stack of locals in scope.
#[derive(Debug)]
struct Local {
    id: LocalId,
    name: SmolStr,
    /// The nesting depth of the procedure that declared the variable.
    depth: usize,
}

impl View for Local {
    type V = LocalView;

    closed spec fn view(&self) -> LocalView {
        LocalView { id: self.id, name: smol_text(self.name), depth: self.depth as nat }
    }
}

/// Bookkeeping for a procedure under construction.
#[derive(Debug)]
struct ProcState {
    /// The bytecode produced so far.
    code: Vec<Op>,
    arity: usize,
    variadic: bool,
    constants: Vec<Expr>,
    /// The variables of enclosing procedures that the procedure refers to.
    up_values: Vec<UpValueOrigin>,
    /// The largest number of locals that were in scope at one time.
    local_count: usize,
}

impl View for ProcState {
    type V = ProcStateView;

    closed spec fn view(&self) -> ProcStateView {
        ProcStateView {
            code: self.code@,
            arity: self.arity as nat,
            variadic: self.variadic,
            constants: views(self.constants@),
            up_values: self.up_values@,
            local_count: self.local_count as nat,
        }
    }
}

impl ProcState {
    fn new() -> (proc: Self)
        ensures
            proc@ == ProcStateView::empty(),
    {
        let proc = Self {
            code: Vec::new(),
            arity: 0,
            variadic: false,
            constants: Vec::new(),
            up_values: Vec::new(),
            local_count: 0,
        };
        assert(proc@.constants =~= Seq::empty());
        proc
    }

    fn emit_op(&mut self, op: Op)
        ensures
            final(self)@ == old(self)@.emit(op),
    {
        self.code.push(op)
    }

    /// The finished prototype, and the captures that a closure of it needs.
    fn into_proc(self) -> (parts: (Proc, Vec<UpValueOrigin>))
        requires
            self@.arity <= MAX_ARGS,
        ensures
            parts.0@ == self@.finish(),
            parts.1@ == self@.up_values,
    {
        let Self { code, arity, variadic, constants, up_values, local_count } = self;
        let count: usize = up_values.len();
        (
            Proc::assemble(code, Signature::new(arity as u8, variadic), constants, local_count, count),
            up_values,
        )
    }

    /// Capture a variable, or find the capture.
    #[verifier::loop_isolation(false)]
    fn add_up_value(&mut self, origin: UpValueOrigin) -> (id: Option<UpValueId>)
        requires
            old(self)@.up_values.len() <= MAX_UP_VALUES,
        ensures
            (final(self)@, id) == add_up_value(old(self)@, origin),
            final(self)@.up_values.len() <= MAX_UP_VALUES,
            final(self)@.code == old(self)@.code,
    {
        reveal(codegen::add_up_value);
        reveal(codegen::origin_position);
        let mut i: usize = 0;
        while i < self.up_values.len()
            invariant
                i <= self.up_values.len(),
                self.up_values@.len() <= MAX_UP_VALUES,
                origin_position(self@.up_values, origin, 0) == origin_position(
                    self@.up_values,
                    origin,
                    i as nat,
                ),
            decreases self.up_values.len() - i,
        {
            if self.up_values[i] == origin {
                return Some(UpValueId(i as u8));
            }
            i += 1;
        }
        if self.up_values.len() < MAX_UP_VALUES {
            let index: usize = self.up_values.len();
            self.up_values.push(origin);
            Some(UpValueId(index as u8))
        } else {
            None
        }
    }
}

/// The procedures of a stack, as the code generation sees them.
closed spec fn proc_views(procs: Seq<ProcState>) -> Seq<ProcStateView> {
    Seq::new(procs.len(), |i: int| procs[i]@)
}

/// The locals of a stack, as the code generation sees them.
closed spec fn local_views(locals: Seq<Local>) -> Seq<LocalView> {
    Seq::new(locals.len(), |i: int| locals[i]@)
}

/// Whether an executable step did what the code generation says: the
/// environment is the one it gives; a step that went through left the state
/// it gives; a step that failed did so with the error it gives.
pub open spec fn agrees<T>(result: Result<T, Error>, env: EnvView, c: CompilerView, expected: Compiled) -> bool {
    &&& env == expected.unit.env
    &&& match result {
        Ok(_) => expected.error is None && c == expected.unit.c,
        Err(error) => expected.error == Some(error@),
    }
}

/// What the compiler keeps of its state while it compiles a procedure.
struct Scope {
    stack_offset: usize,
    context: Context,
    /// The number of locals in scope on entry.
    locals: usize,
}

impl View for Scope {
    type V = ScopeView;

    closed spec fn view(&self) -> ScopeView {
        ScopeView {
            stack_offset: self.stack_offset as nat,
            context: self.context,
            locals: self.locals as nat,
        }
    }
}

/// How the state on entry to a procedure relates to the state before: a
/// new procedure is current, one level deeper, and the locals before are
/// still in scope, below those of the new procedure.
pub open spec fn entered(before: CompilerView, inner: CompilerView) -> bool {
    &&& inner.depth == before.depth + 1
    &&& inner.proc_stack == before.proc_stack.push(before.proc)
    &&& inner.stack_offset == before.locals.len()
    &&& inner.context == before.context
    &&& inner.locals.len() >= before.locals.len()
    &&& forall|i: int| 0 <= i < before.locals.len() ==> #[trigger] inner.locals[i] == before.locals[i]
}

/// Whether two procedures under construction differ in their code at most.
pub open spec fn same_but_code(before: ProcStateView, after: ProcStateView) -> bool {
    &&& after.arity == before.arity
    &&& after.variadic == before.variadic
    &&& after.constants == before.constants
    &&& after.up_values == before.up_values
    &&& after.local_count == before.local_count
    &&& after.code.len() >= before.code.len()
}

/// How the state on exit from a procedure relates to the state at the end of
/// its body: the enclosing procedure is current and has got more code, and
/// the locals of the finished procedure are gone.
pub open spec fn exited(inner: CompilerView, saved: ScopeView, after: CompilerView) -> bool {
    &&& after.depth == inner.depth - 1
    &&& after.proc_stack == inner.proc_stack.drop_last()
    &&& after.stack_offset == saved.stack_offset
    &&& after.context == saved.context
    &&& after.locals == inner.locals.subrange(0, saved.locals as int)
    &&& same_but_code(inner.proc_stack.last(), after.proc)
}

/// A procedure that is entered, compiled and left keeps the state of the
/// enclosing procedure well formed and only adds code to it.
pub proof fn lemma_scope(
    entry: CompilerView,
    inner: CompilerView,
    compiled: CompilerView,
    after: CompilerView,
)
    requires
        entry.wf(),
        inner.wf(),
        compiled.wf(),
        entered(entry, inner),
        extends(inner, compiled),
        exited(compiled, codegen::scope_of(entry), after),
    ensures
        after.wf(),
        extends(entry, after),
{
    assert(inner.proc_stack.last() == entry.proc);
    assert(kept(inner.proc_stack[entry.depth as int], compiled.proc_stack[entry.depth as int]));
    assert(after.locals =~= entry.locals);
    assert(after.proc_stack.len() == entry.proc_stack.len());
    assert forall|i: int| 0 <= i < entry.proc_stack.len() implies kept(
        entry.proc_stack[i],
        #[trigger] after.proc_stack[i],
    ) by {
        assert(inner.proc_stack[i] == entry.proc_stack[i]);
        assert(kept(inner.proc_stack[i], compiled.proc_stack[i]));
        assert(after.proc_stack[i] == compiled.proc_stack[i]);
    }
    assert forall|i: int| 0 <= i < after.proc_stack.len() implies (#[trigger] after.proc_stack[i]).up_values.len()
        <= MAX_UP_VALUES by {
        assert(after.proc_stack[i] == compiled.proc_stack[i]);
    }
}

struct Compiler {
    /// The procedure being compiled.
    proc: ProcState,
    /// The enclosing procedures, outermost first.
    proc_stack: Vec<ProcState>,
    /// Where in the program the compiler is.
    context: Context,
    /// The nesting depth of the procedure being compiled.
    depth: usize,
    /// The locals in scope.
    locals: Vec<Local>,
    /// The index in `locals` where the locals of the procedure being compiled start.
    stack_offset: usize,
}

impl View for Compiler {
    type V = CompilerView;

    closed spec fn view(&self) -> CompilerView {
        CompilerView {
            proc: self.proc@,
            proc_stack: proc_views(self.proc_stack@),
            context: self.context,
            depth: self.depth as nat,
            locals: local_views(self.locals@),
            stack_offset: self.stack_offset as nat,
        }
    }
}

impl Compiler {
    /// The compiler at the start of a program.
    fn new() -> (compiler: Self)
        ensures
            compiler@ == CompilerView::start(),
            compiler@.wf(),
    {
        let compiler = Compiler {
            proc: ProcState::new(),
            proc_stack: Vec::new(),
            // Compilation starts at the top level of a program.
            context: Context::TopLevel,
            depth: 0,
            locals: Vec::new(),
            stack_offset: 0,
        };
        assert(compiler@.proc_stack =~= Seq::empty());
        assert(compiler@.locals =~= Seq::empty());
        compiler
    }

    /// Add a constant to the current procedure, or find it there.
    #[verifier::loop_isolation(false)]
    fn add_constant(&mut self, value: Expr) -> (id: Option<ConstantId>)
        requires
            old(self)@.wf(),
        ensures
            (final(self)@, id) == add_constant(old(self)@, value@),
            final(self)@.wf(),
            extends(old(self)@, final(self)@),
            final(self)@.proc.code == old(self)@.proc.code,
    {
        reveal(codegen::add_constant);
        reveal(codegen::constant_position);
        let mut i: usize = 0;
        while i < self.proc.constants.len()
            invariant
                i <= self.proc.constants.len(),
                self.proc.constants@.len() <= MAX_TABLE,
                constant_position(self@.proc.constants, value@, 0) == constant_position(
                    self@.proc.constants,
                    value@,
                    i as nat,
                ),
            decreases self.proc.constants.len() - i,
        {
            if self.proc.constants[i].same(&value) {
                return Some(ConstantId::new(i as u16));
            }
            i += 1;
        }
        if self.proc.constants.len() < MAX_TABLE {
            let next_index: usize = self.proc.constants.len();
            self.proc.constants.push(value);
            Some(ConstantId::new(next_index as u16))
        } else {
            None
        }
    }

    /// Declare a local variable of the current procedure.  It hides a
    /// variable of the same name of an enclosing procedure.  A second local
    /// of the same name in one procedure is refused, and so is a local
    /// beyond what a call frame can hold.
    #[verifier::loop_isolation(false)]
    fn declare_local(&mut self, name: &str) -> (id: Result<LocalId, Error>)
        requires
            old(self)@.wf(),
        ensures
            match declare_local(old(self)@, name@) {
                Ok((c, local)) => id == Ok::<LocalId, Error>(local) && final(self)@ == c,
                Err(kind) => id matches Err(e) && e@ == ErrorView::Compile(kind, name@),
            },
            id is Ok ==> final(self)@.wf() && extends(old(self)@, final(self)@),
            id is Ok ==> final(self)@.proc.code == old(self)@.proc.code,
    {
        reveal(codegen::declare_local);
        reveal(codegen::declared);
        // Scan the locals of the current procedure, innermost first.
        let mut i: usize = self.locals.len();
        while i > 0 && self.locals[i - 1].depth == self.depth
            invariant
                i <= self.locals.len(),
                declared(self@.locals, name@, self@.depth, self@.locals.len()) == declared(
                    self@.locals,
                    name@,
                    self@.depth,
                    i as nat,
                ),
            decreases i,
        {
            if str_eq(self.locals[i - 1].name.as_str(), name) {
                return Err(Error::compile_named(CompileError::DuplicateLocal, name));
            }
            i -= 1;
        }
        let index: usize = self.locals.len() - self.stack_offset;
        if index >= MAX_LOCALS {
            return Err(Error::compile_named(CompileError::TooManyLocals, name));
        }
        let local_id = LocalId::new(index as u8);
        let ghost before = self@;
        self.locals.push(Local { id: local_id, name: smol_new(name), depth: self.depth });
        if index + 1 > self.proc.local_count {
            self.proc.local_count = index + 1;
        }
        proof {
            assert(self@.locals =~= before.locals.push(
                LocalView { id: local_id, name: name@, depth: before.depth },
            ));
            assert(self@.proc_stack =~= before.proc_stack);
        }
        Ok(local_id)
    }

    /// Compile variable access: find the variable among the locals in scope,
    /// innermost first, then in the environment, and emit the load.
    #[verifier::loop_isolation(false)]
    fn compile_access(&mut self, env: &Env, name: &str) -> (variable: Result<Variable, Error>)
        requires
            old(self)@.wf(),
            env.wf(),
        ensures
            agrees(
                variable,
                env@,
                final(self)@,
                codegen::compile_access(Unit { env: env@, c: old(self)@ }, name@),
            ),
            variable is Ok ==> final(self)@.wf() && extends(old(self)@, final(self)@),
    {
        reveal(codegen::compile_access);
        reveal(codegen::resolve);
        reveal(codegen::capture_chain);
        reveal(codegen::local_position);
        reveal(codegen::add_up_value);
        let ghost start = self@;
        let mut i: usize = self.locals.len();
        let mut found: Option<usize> = None;
        while i > 0 && found.is_none()
            invariant
                i <= self.locals.len(),
                self@ == start,
                match found {
                    Some(index) => local_position(start.locals, name@, start.locals.len())
                        == Some(index as nat) && index < self.locals.len(),
                    None => local_position(start.locals, name@, start.locals.len())
                        == local_position(start.locals, name@, i as nat),
                },
            decreases i, (if found is None { 1nat } else { 0nat }),
        {
            if str_eq(self.locals[i - 1].name.as_str(), name) {
                found = Some(i - 1);
            } else {
                i -= 1;
            }
        }
        match found {
            Some(index) => {
                let id = self.locals[index].id;
                let depth: usize = self.locals[index].depth;
                if depth >= self.depth {
                    self.proc.emit_op(Op::LoadLocalVar(id));
                    assert(self@.proc_stack =~= start.proc_stack);
                    assert(self@.locals =~= start.locals);
                    return Ok(Variable::Local(id));
                }
                // The variable belongs to an enclosing procedure: every
                // procedure between there and here captures it.
                let mut level: usize = depth + 1;
                let mut origin = UpValueOrigin::Parent(id);
                loop
                    invariant
                        self@.wf(),
                        extends(start, self@),
                        self@.proc.code == start.proc.code,
                        level <= self.depth,
                        capture_chain(start, (depth + 1) as nat, UpValueOrigin::Parent(id))
                            == capture_chain(self@, level as nat, origin),
                    decreases self.depth - level,
                {
                    let ghost before = self@;
                    let added = if level < self.proc_stack.len() {
                        self.proc_stack[level].add_up_value(origin)
                    } else {
                        self.proc.add_up_value(origin)
                    };
                    proof {
                        let (proc, _) = add_up_value(proc_at(before, level as nat), origin);
                        assert(self@.proc_stack =~= with_proc_at(
                            before,
                            level as nat,
                            proc,
                        ).proc_stack);
                        assert(self@.locals =~= before.locals);
                        assert(self@ == with_proc_at(before, level as nat, proc));
                    }
                    match added {
                        Some(up) => {
                            if level == self.depth {
                                self.proc.emit_op(Op::LoadUpValue(up));
                                proof {
                                    assert(self@.proc_stack =~= with_proc_at(
                                        before,
                                        level as nat,
                                        add_up_value(proc_at(before, level as nat), origin).0,
                                    ).proc_stack);
                                    assert(self@.locals =~= before.locals);
                                }
                                return Ok(Variable::UpValue(up));
                            }
                            origin = UpValueOrigin::Outer(up);
                            level += 1;
                        },
                        None => {
                            return Err(Error::compile(CompileError::TooManyUpValues));
                        },
                    }
                }
            },
            None => match env.resolve_var(name) {
                Some(symbol) => {
                    // Load the variable from the environment.
                    self.proc.emit_op(Op::LoadEnvVar(symbol));
                    assert(self@.proc_stack =~= start.proc_stack);
                    assert(self@.locals =~= start.locals);
                    Ok(Variable::Symbol(symbol))
                },
                None => Err(Error::compile_named(CompileError::UnboundVariable, name)),
            },
        }
    }

    /// Declare the formals of the current procedure.
    #[verifier::loop_isolation(false)]
    fn declare_formals(&mut self, formals: &Expr, skip: usize) -> (done: Result<(), Error>)
        requires
            old(self)@.wf(),
        ensures
            match codegen::declare_formals(old(self)@, formals@, skip as nat) {
                Ok(c) => done is Ok && final(self)@ == c,
                Err((kind, name)) => done matches Err(e) && e@ == ErrorView::Compile(kind, name),
            },
            done is Ok ==> {
                &&& final(self)@.wf()
                &&& final(self)@.depth == old(self)@.depth
                &&& final(self)@.stack_offset == old(self)@.stack_offset
                &&& final(self)@.context == old(self)@.context
                &&& final(self)@.proc_stack == old(self)@.proc_stack
                &&& final(self)@.proc.code == old(self)@.proc.code
                &&& final(self)@.locals.len() >= old(self)@.locals.len()
                &&& forall|i: int|
                    0 <= i < old(self)@.locals.len() ==> #[trigger] final(self)@.locals[i] == old(
                        self,
                    )@.locals[i]
            },
    {
        reveal(codegen::declare_formals);
        reveal(codegen::declare_params);
        reveal(codegen::declare_local);
        match formals {
            // A single identifier takes all the arguments as one list.
            Expr::Ident(name) => {
                self.proc.variadic = true;
                assert(self@.proc_stack =~= old(self)@.proc_stack);
                assert(self@.locals =~= old(self)@.locals);
                match self.declare_local(name.as_str()) {
                    Ok(_) => Ok(()),
                    Err(error) => Err(error),
                }
            },
            // A list names the arguments one by one.  After a dot comes
            // the name for the list of the surplus arguments.
            Expr::List(params) => {
                let mut i: usize = skip;
                while i < params.len()
                    invariant
                        self@.wf(),
                        self@.depth == old(self)@.depth,
                        self@.stack_offset == old(self)@.stack_offset,
                        self@.context == old(self)@.context,
                        self@.proc_stack == old(self)@.proc_stack,
                        self@.proc.code == old(self)@.proc.code,
                        self@.locals.len() >= old(self)@.locals.len(),
                        forall|k: int|
                            0 <= k < old(self)@.locals.len() ==> #[trigger] self@.locals[k] == old(
                                self,
                            )@.locals[k],
                        codegen::declare_params(old(self)@, views(params@), skip as nat)
                            == codegen::declare_params(self@, views(params@), i as nat),
                    decreases params.len() - i,
                {
                    let ghost before = self@;
                    match &params[i] {
                        Expr::Ident(name) => {
                            match self.declare_local(name.as_str()) {
                                Ok(_) => {},
                                Err(error) => {
                                    return Err(error);
                                },
                            }
                            if self.proc.variadic {
                                return Ok(());
                            }
                            if self.proc.arity >= MAX_ARGS {
                                return Err(Error::compile(CompileError::TooManyLocals));
                            }
                            let ghost declared = self@;
                            self.proc.arity += 1;
                            assert(self@.proc_stack =~= declared.proc_stack);
                            assert(self@.locals =~= declared.locals);
                        },
                        Expr::Keyword(Keyword::Dot) => {
                            self.proc.variadic = true;
                            assert(self@.proc_stack =~= before.proc_stack);
                            assert(self@.locals =~= before.locals);
                        },
                        _ => {
                            return Err(Error::compile(CompileError::ParameterNotIdentifier));
                        },
                    }
                    i += 1;
                }
                Ok(())
            },
            _ => Err(Error::compile(CompileError::ParameterNotIdentifier)),
        }
    }

    /// Emit an instruction of the current procedure.
    fn emit(&mut self, op: Op)
        requires
            old(self)@.wf(),
        ensures
            final(self)@ == old(self)@.emit(op),
            final(self)@.wf(),
            extends(old(self)@, final(self)@),
    {
        self.proc.emit_op(op);
        assert(self@.proc_stack =~= old(self)@.proc_stack);
        assert(self@.locals =~= old(self)@.locals);
    }

    /// Replace an instruction of the current procedure.
    fn patch(&mut self, at: usize, op: Op)
        requires
            old(self)@.wf(),
            at < old(self)@.proc.code.len(),
        ensures
            final(self)@ == codegen::patched(
                Unit { env: EnvView::empty(), c: old(self)@ },
                at as nat,
                op,
            ).c,
            final(self)@.wf(),
            extends(old(self)@, final(self)@),
    {
        self.proc.code[at] = op;
        assert(self@.proc_stack =~= old(self)@.proc_stack);
        assert(self@.locals =~= old(self)@.locals);
    }

    /// Set the context.
    fn set_context(&mut self, context: Context)
        requires
            old(self)@.wf(),
        ensures
            final(self)@ == (CompilerView { context, ..old(self)@ }),
            final(self)@.wf(),
    {
        self.context = context;
        assert(self@.proc_stack =~= old(self)@.proc_stack);
        assert(self@.locals =~= old(self)@.locals);
    }

    /// The length of the code of the current procedure.
    fn code_len(&self) -> (len: usize)
        ensures
            len == self@.proc.code.len(),
    {
        self.proc.code.len()
    }

    /// Compile a single expression: the instructions that leave its value
    /// on the operand stack.
    fn compile_expr(&mut self, env: &mut Env, expr: &Expr) -> (done: Result<(), Error>)
        requires
            old(self)@.wf(),
            old(env).wf(),
        ensures
            final(env).wf(),
            agrees(
                done,
                final(env)@,
                final(self)@,
                codegen::compile_expr(Unit { env: old(env)@, c: old(self)@ }, expr@),
            ),
            done is Ok ==> final(self)@.wf() && extends(old(self)@, final(self)@),
        decreases expr, 0nat, 0nat,
    {
        match expr {
            // Nil literal
            Expr::Nil => {
                self.emit(Op::PushNil);
                Ok(())
            },
            // Number literal
            Expr::Number(_) => self.compile_constant(env, expr),
            // String literal
            Expr::String(_) => self.compile_constant(env, expr),
            // Boolean literal
            Expr::Bool(boolean) => {
                let op = if *boolean {
                    Op::PushTrue
                } else {
                    Op::PushFalse
                };
                self.emit(op);
                Ok(())
            },
            Expr::Ident(ident) => {
                // Access a variable by its name.
                match self.compile_access(env, ident.as_str()) {
                    Ok(_) => Ok(()),
                    Err(error) => Err(error),
                }
            },
            Expr::List(list) => self.compile_form(env, list),
            Expr::Sequence(items) => self.compile_sequence(env, items, 0),
            _ => Err(Error::Unimplemented(Feature::Literal)),
        }
    }

    /// Push a literal through the constant table.
    fn compile_constant(&mut self, env: &Env, value: &Expr) -> (done: Result<(), Error>)
        requires
            old(self)@.wf(),
        ensures
            agrees(
                done,
                env@,
                final(self)@,
                codegen::compile_constant(Unit { env: env@, c: old(self)@ }, value@),
            ),
            done is Ok ==> final(self)@.wf() && extends(old(self)@, final(self)@),
    {
        reveal(codegen::compile_constant);
        match self.add_constant(value.duplicate()) {
            Some(constant_id) => {
                self.emit(Op::PushConstant(constant_id));
                Ok(())
            },
            None => Err(Error::compile(CompileError::TooManyConstants)),
        }
    }

    /// Compile the expressions `items[from..]` one after the other.  Only
    /// the value of the last one is left on the operand stack.
    #[verifier::loop_isolation(false)]
    fn compile_sequence(&mut self, env: &mut Env, items: &Vec<Expr>, from: usize) -> (done: Result<
        (),
        Error,
    >)
        requires
            old(self)@.wf(),
            old(env).wf(),
        ensures
            final(env).wf(),
            agrees(
                done,
                final(env)@,
                final(self)@,
                codegen::compile_sequence(Unit { env: old(env)@, c: old(self)@ }, views(items@), from as nat),
            ),
            done is Ok ==> final(self)@.wf() && extends(old(self)@, final(self)@),
        decreases items, 0nat, items.len() - from,
    {
        let mut i: usize = from;
        while i < items.len()
            invariant
                env.wf(),
                self@.wf(),
                extends(old(self)@, self@),
                codegen::compile_sequence(Unit { env: old(env)@, c: old(self)@ }, views(items@), from as nat)
                    == codegen::compile_sequence(
                    Unit { env: env@, c: self@ },
                    views(items@),
                    i as nat,
                ),
            decreases items.len() - i,
        {
            let item = &items[i];
            assert(decreases_to!(items => item)) by {
                assert(decreases_to!(items => items@));
                assert(decreases_to!(items@ => items@[i as int]));
            }
            self.compile_expr(env, item)?;
            if i + 1 < items.len() {
                // Discard the values of all expressions but the last.
                self.emit(Op::Pop);
            }
            i += 1;
        }
        Ok(())
    }

    /// Compile the instruction that ends the program.
    fn compile_end(&mut self)
        requires
            old(self)@.wf(),
        ensures
            final(self)@ == old(self)@.emit(Op::End),
            final(self)@.wf(),
            extends(old(self)@, final(self)@),
    {
        self.emit(Op::End);
    }

    /// Compile a list: a special form, or else a procedure call.
    fn compile_form(&mut self, env: &mut Env, list: &Vec<Expr>) -> (done: Result<(), Error>)
        requires
            old(self)@.wf(),
            old(env).wf(),
        ensures
            final(env).wf(),
            agrees(
                done,
                final(env)@,
                final(self)@,
                codegen::compile_form(Unit { env: old(env)@, c: old(self)@ }, views(list@)),
            ),
            done is Ok ==> final(self)@.wf() && extends(old(self)@, final(self)@),
        decreases list, 2nat, 0nat,
    {
        if self.compile_special_form(env, list)? {
            Ok(())
        } else {
            // The default form is a procedure call.
            self.compile_call(env, list)
        }
    }

    /// Compile a special form: a form with evaluation rules of its own, which
    /// the compiler lowers in line.
    ///
    /// The result is `false`, and nothing is emitted, if the list is no
    /// special form.
    fn compile_special_form(&mut self, env: &mut Env, list: &Vec<Expr>) -> (done: Result<
        bool,
        Error,
    >)
        requires
            old(self)@.wf(),
            old(env).wf(),
        ensures
            final(env).wf(),
            (done matches Ok(handled) && !handled) <==> codegen::special_of(views(list@)) is None,
            codegen::special_of(views(list@)) is None ==> final(env)@ == old(env)@,
            codegen::special_of(views(list@)) is None ==> final(self)@ == old(self)@,
            codegen::special_of(views(list@)) is Some ==> agrees(
                done,
                final(env)@,
                final(self)@,
                codegen::compile_form(Unit { env: old(env)@, c: old(self)@ }, views(list@)),
            ),
            done is Ok ==> final(self)@.wf() && extends(old(self)@, final(self)@),
        decreases list, 1nat, 1nat,
    {
        match special_of(list) {
            Some(Special::Define) => {
                self.compile_define_form(env, list)?;
                Ok(true)
            },
            Some(Special::Lambda) => {
                self.compile_lambda_form(env, list)?;
                Ok(true)
            },
            Some(Special::If) => {
                self.compile_if_form(env, list)?;
                Ok(true)
            },
            Some(Special::Reserved(feature)) => Err(Error::Unimplemented(feature)),
            None => Ok(false),
        }
    }

    /// Compile a procedure call.
    #[verifier::loop_isolation(false)]
    fn compile_call(&mut self, env: &mut Env, list: &Vec<Expr>) -> (done: Result<(), Error>)
        requires
            old(self)@.wf(),
            old(env).wf(),
        ensures
            final(env).wf(),
            agrees(
                done,
                final(env)@,
                final(self)@,
                codegen::compile_call(Unit { env: old(env)@, c: old(self)@ }, views(list@)),
            ),
            done is Ok ==> final(self)@.wf() && extends(old(self)@, final(self)@),
        decreases list, 1nat, 0nat,
    {
        if list.len() == 0 {
            return Err(Error::compile(CompileError::IllFormedExpression));
        }
        match &list[0] {
            Expr::Ident(ident) => {
                if list.len() - 1 > MAX_ARGS {
                    return Err(Error::compile(CompileError::TooManyArguments));
                }
                // The callee goes below its arguments.
                match self.compile_access(env, ident.as_str()) {
                    Ok(_) => {},
                    Err(error) => {
                        return Err(error);
                    },
                }
                let ghost loaded = Unit { env: env@, c: self@ };
                let mut i: usize = 1;
                while i < list.len()
                    invariant
                        1 <= i <= list.len(),
                        env.wf(),
                        self@.wf(),
                        extends(old(self)@, self@),
                        codegen::compile_args(loaded, views(list@), 1) == codegen::compile_args(
                            Unit { env: env@, c: self@ },
                            views(list@),
                            i as nat,
                        ),
                    decreases list.len() - i,
                {
                    let arg = &list[i];
                    assert(decreases_to!(list => arg)) by {
                        assert(decreases_to!(list => list@));
                        assert(decreases_to!(list@ => list@[i as int]));
                    }
                    self.compile_expr(env, arg)?;
                    i += 1;
                }
                // One instruction calls native functions and closures alike.
                self.emit(Op::CallNative { arity: (list.len() - 1) as u8 });
                Ok(())
            },
            _ => Err(Error::compile(CompileError::OperatorNotProcedure)),
        }
    }

    /// Compile the `define` special form.
    ///
    /// A definition makes a variable: at the top level of a program a
    /// variable of the environment, at the start of a body a local of the
    /// procedure.  Anywhere else a definition is an error.
    ///
    /// The second form, with a list in the place of the name, defines a procedure.
    fn compile_define_form(&mut self, env: &mut Env, list: &Vec<Expr>) -> (done: Result<(), Error>)
        requires
            old(self)@.wf(),
            old(env).wf(),
        ensures
            final(env).wf(),
            agrees(
                done,
                final(env)@,
                final(self)@,
                codegen::compile_define_form(Unit { env: old(env)@, c: old(self)@ }, views(list@)),
            ),
            done is Ok ==> final(self)@.wf() && extends(old(self)@, final(self)@),
        decreases list, 1nat, 0nat,
    {
        if list.len() < 2 {
            return Err(Error::compile(CompileError::IdentifierExpected));
        }
        match &list[1] {
            Expr::Ident(var_name) => self.compile_definition(env, var_name.as_str(), list, None),
            Expr::List(formals) => {
                if formals.len() > 0 {
                    match &formals[0] {
                        Expr::Ident(proc_name) => self.compile_definition(
                            env,
                            proc_name.as_str(),
                            list,
                            Some(&list[1]),
                        ),
                        _ => Err(Error::compile(CompileError::IllFormedSpecialForm)),
                    }
                } else {
                    Err(Error::compile(CompileError::IllFormedSpecialForm))
                }
            },
            _ => Err(Error::compile(CompileError::IllFormedSpecialForm)),
        }
    }

    /// Before the value of a definition is compiled: at the top level the
    /// name is interned, so that the value can refer to it.
    fn define_prepare(&self, env: &mut Env, name: &str) -> (prepared: Option<Option<SymbolId>>)
        requires
            old(env).wf(),
        ensures
            final(env).wf(),
            match codegen::define_prepare(Unit { env: old(env)@, c: self@ }, name@) {
                Some((unit, symbol)) => prepared == Some(symbol) && final(env)@ == unit.env
                    && unit.c == self@,
                None => prepared is None && final(env)@ == old(env)@,
            },
    {
        reveal(codegen::define_prepare);
        if self.context.is_top_level() {
            if env.can_intern_var(name) {
                // A variable can be defined again.
                Some(Some(env.intern_var(name)))
            } else {
                None
            }
        } else {
            Some(None)
        }
    }

    /// After the value of a definition is compiled: the value is stored.
    fn define_finish(&mut self, env: &Env, context: Context, symbol: Option<SymbolId>, name: &str) -> (done:
        Result<(), Error>)
        requires
            old(self)@.wf(),
        ensures
            agrees(
                done,
                env@,
                final(self)@,
                codegen::define_finish(
                    context,
                    symbol,
                    Unit { env: env@, c: old(self)@ },
                    name@,
                ),
            ),
            done is Ok ==> final(self)@.wf() && extends(old(self)@, final(self)@),
    {
        reveal(codegen::define_finish);
        match context {
            Context::TopLevel => match symbol {
                Some(symbol) => {
                    self.emit(Op::StoreEnvVar(symbol));
                    self.emit(Op::Pop);
                    // A definition evaluates to void.
                    self.emit(Op::PushVoid);
                    Ok(())
                },
                None => Err(Error::compile(CompileError::TooManySymbols)),
            },
            Context::BodyStart => {
                let local_id = match self.declare_local(name) {
                    Ok(id) => id,
                    Err(error) => {
                        return Err(error);
                    },
                };
                self.emit(Op::StoreLocalVar(local_id));
                Ok(())
            },
            Context::BodyRest => Err(Error::compile(CompileError::DefineInBodyRest)),
        }
    }

    /// Compile the definition of `name` with the value that `list` gives.
    fn compile_definition(
        &mut self,
        env: &mut Env,
        name: &str,
        list: &Vec<Expr>,
        formals: Option<&Expr>,
    ) -> (done: Result<(), Error>)
        requires
            old(self)@.wf(),
            old(env).wf(),
        ensures
            final(env).wf(),
            agrees(
                done,
                final(env)@,
                final(self)@,
                codegen::compile_definition(
                    Unit { env: old(env)@, c: old(self)@ },
                    name@,
                    views(list@),
                    match formals {
                        Some(f) => Some(f@),
                        None => None,
                    },
                ),
            ),
            done is Ok ==> final(self)@.wf() && extends(old(self)@, final(self)@),
        decreases list, 0nat, list.len() + 5,
    {
        let context = self.context;
        let symbol = match self.define_prepare(env, name) {
            Some(symbol) => symbol,
            None => {
                return Err(Error::compile(CompileError::TooManySymbols));
            },
        };
        self.compile_defined(env, list, formals)?;
        self.define_finish(env, context, symbol, name)
    }

    /// Compile the value of a definition: a procedure, the expression after
    /// the name, or the empty list if there is none.
    fn compile_defined(&mut self, env: &mut Env, list: &Vec<Expr>, formals: Option<&Expr>) -> (done:
        Result<(), Error>)
        requires
            old(self)@.wf(),
            old(env).wf(),
        ensures
            final(env).wf(),
            agrees(
                done,
                final(env)@,
                final(self)@,
                codegen::compile_defined(
                    Unit { env: old(env)@, c: old(self)@ },
                    views(list@),
                    match formals {
                        Some(f) => Some(f@),
                        None => None,
                    },
                ),
            ),
            done is Ok ==> final(self)@.wf() && extends(old(self)@, final(self)@),
        decreases list, 0nat, list.len() + 4,
    {
        match formals {
            Some(formals) => self.compile_lambda(env, formals, 1, list, 2),
            None => {
                if list.len() > 2 {
                    let value = &list[2];
                    assert(decreases_to!(list => value)) by {
                        assert(decreases_to!(list => list@));
                        assert(decreases_to!(list@ => list@[2]));
                    }
                    self.compile_expr(env, value)
                } else {
                    self.emit(Op::PushNil);
                    Ok(())
                }
            },
        }
    }

    /// Compile the `lambda` special form.
    ///
    /// ```scheme
    /// (lambda <formal> <body>)
    /// (lambda (<formals>) <body>)
    /// (lambda (<formals> . <rest>) <body>)
    /// ```
    fn compile_lambda_form(&mut self, env: &mut Env, list: &Vec<Expr>) -> (done: Result<(), Error>)
        requires
            old(self)@.wf(),
            old(env).wf(),
        ensures
            final(env).wf(),
            agrees(
                done,
                final(env)@,
                final(self)@,
                codegen::compile_lambda_form(Unit { env: old(env)@, c: old(self)@ }, views(list@)),
            ),
            done is Ok ==> final(self)@.wf() && extends(old(self)@, final(self)@),
        decreases list, 1nat, 0nat,
    {
        if list.len() < 2 {
            return Err(Error::compile(CompileError::IllFormedSpecialForm));
        }
        self.compile_lambda(env, &list[1], 0, list, 2)
    }

    /// On entry to a procedure: the current procedure is set aside and a new
    /// one begun, one level deeper, and the formals are declared as its
    /// first locals, so that the body can refer to the arguments by name.
    /// The result is what has to be put back on exit.
    fn lambda_enter(&mut self, env: &Env, formals: &Expr, skip: usize) -> (saved: Result<Scope, Error>)
        requires
            old(self)@.wf(),
        ensures
            match codegen::lambda_enter(
                Unit { env: env@, c: old(self)@ },
                formals@,
                skip as nat,
            ) {
                Ok(inner) => saved matches Ok(scope) && scope@ == codegen::scope_of(old(self)@)
                    && final(self)@ == inner.c && inner.env == env@,
                Err(error) => saved matches Err(e) && e@ == error,
            },
            saved is Ok ==> final(self)@.wf() && entered(old(self)@, final(self)@),
    {
        reveal(codegen::lambda_enter);
        let ghost entry = self@;
        let saved = Scope {
            stack_offset: self.stack_offset,
            context: self.context,
            locals: self.locals.len(),
        };
        let mut outer = ProcState::new();
        core::mem::swap(&mut self.proc, &mut outer);
        self.proc_stack.push(outer);
        self.depth = self.proc_stack.len();
        self.stack_offset = self.locals.len();
        proof {
            assert(self@.proc_stack =~= entry.proc_stack.push(entry.proc));
            assert(self@.locals =~= entry.locals);
            assert(self@ == codegen::open_scope(entry));
        }
        match self.declare_formals(formals, skip) {
            Ok(()) => Ok(saved),
            Err(error) => Err(error),
        }
    }

    /// On exit from a procedure, after its body: the procedure returns the
    /// value of the body; the enclosing procedure is current again and the
    /// locals of the finished one are out of scope; the prototype goes into
    /// the environment; and the enclosing procedure makes a closure of it.
    #[verifier::loop_isolation(false)]
    fn lambda_exit(&mut self, env: &mut Env, saved: Scope) -> (done: Result<(), Error>)
        requires
            old(self)@.wf(),
            old(env).wf(),
            old(self)@.depth >= 1,
            saved@.locals <= old(self)@.locals.len(),
        ensures
            final(env).wf(),
            agrees(
                done,
                final(env)@,
                final(self)@,
                codegen::lambda_exit(saved@, Unit { env: old(env)@, c: old(self)@ }),
            ),
            done is Ok ==> exited(old(self)@, saved@, final(self)@),
    {
        reveal(codegen::lambda_exit);
        reveal(codegen::emit_captures);
        if !env.can_add_procedure() {
            return Err(Error::compile(CompileError::TooManyProcedures));
        }
        self.proc.emit_op(Op::Return);
        let ghost finished = self@;
        proof {
            assert(finished.proc_stack =~= old(self)@.proc_stack);
            assert(finished.locals =~= old(self)@.locals);
            assert(finished == old(self)@.emit(Op::Return));
        }
        let mut proc_state = match self.proc_stack.pop() {
            Some(proc_state) => proc_state,
            None => vstd::pervasive::unreached(),
        };
        core::mem::swap(&mut self.proc, &mut proc_state);
        self.depth = self.depth - 1;
        self.locals.truncate(saved.locals);
        self.stack_offset = saved.stack_offset;
        self.context = saved.context;
        proof {
            assert(self@.proc_stack =~= finished.proc_stack.drop_last());
            assert(self@.locals =~= finished.locals.subrange(0, saved@.locals as int));
            assert(self@ == codegen::close_scope(finished, saved@));
        }
        let (prototype, captures) = proc_state.into_proc();
        // The prototype is kept in the environment.
        let proc_id = env.add_procedure(prototype);
        self.proc.emit_op(Op::CreateClosure(proc_id));
        let ghost created = self@;
        proof {
            assert(created.proc_stack =~= finished.proc_stack.drop_last());
            assert(created.locals =~= finished.locals.subrange(0, saved@.locals as int));
            assert(created == codegen::close_scope(finished, saved@).emit(
                Op::CreateClosure(proc_id),
            ));
        }
        let mut i: usize = 0;
        while i < captures.len()
            invariant
                i <= captures.len(),
                self@.proc_stack == created.proc_stack,
                self@.locals == created.locals,
                self@.depth == created.depth,
                self@.stack_offset == created.stack_offset,
                self@.context == created.context,
                same_but_code(created.proc, self@.proc),
                codegen::emit_captures(created, captures@, 0) == codegen::emit_captures(
                    self@,
                    captures@,
                    i as nat,
                ),
            decreases captures.len() - i,
        {
            let ghost before = self@;
            self.proc.emit_op(Op::CaptureValue(captures[i]));
            proof {
                assert(self@.proc_stack =~= before.proc_stack);
                assert(self@.locals =~= before.locals);
                assert(self@ == before.emit(Op::CaptureValue(captures@[i as int])));
            }
            i += 1;
        }
        Ok(())
    }

    /// Compile a procedure with the given formals and the body `body[from..]`.
    fn compile_lambda(
        &mut self,
        env: &mut Env,
        formals: &Expr,
        skip: usize,
        body: &Vec<Expr>,
        from: usize,
    ) -> (done: Result<(), Error>)
        requires
            old(self)@.wf(),
            old(env).wf(),
        ensures
            final(env).wf(),
            agrees(
                done,
                final(env)@,
                final(self)@,
                codegen::compile_lambda(Unit { env: old(env)@, c: old(self)@ }, formals@, skip as nat, views(body@), from as nat),
            ),
            done is Ok ==> final(self)@.wf() && extends(old(self)@, final(self)@),
        decreases body, 0nat, body.len() + 3,
    {
        let ghost entry = self@;
        let saved = match self.lambda_enter(env, formals, skip) {
            Ok(saved) => saved,
            Err(error) => {
                return Err(error);
            },
        };
        let ghost inner = self@;
        self.compile_body(env, body, from)?;
        let ghost compiled = self@;
        self.lambda_exit(env, saved)?;
        proof {
            lemma_scope(entry, inner, compiled, self@);
        }
        Ok(())
    }

    /// Compile the definitions at the start of a body, from `body[from]` on,
    /// until an expression that is no definition is met.  The result is the
    /// index of that expression.
    #[verifier::loop_isolation(false)]
    fn compile_defines(&mut self, env: &mut Env, body: &Vec<Expr>, from: usize) -> (rest: Result<
        usize,
        Error,
    >)
        requires
            old(self)@.wf(),
            old(env).wf(),
            from <= body.len(),
        ensures
            final(env).wf(),
            agrees(
                rest,
                final(env)@,
                final(self)@,
                codegen::compile_defines(Unit { env: old(env)@, c: old(self)@ }, views(body@), from as nat).0,
            ),
            rest matches Ok(index) ==> index == codegen::compile_defines(
                Unit { env: old(env)@, c: old(self)@ },
                views(body@),
                from as nat,
            ).1 && from <= index <= body.len(),
            rest is Ok ==> final(self)@.wf() && extends(old(self)@, final(self)@),
        decreases body, 0nat, body.len() + 1 - from,
    {
        let mut i: usize = from;
        while i < body.len()
            invariant
                from <= i <= body.len(),
                env.wf(),
                self@.wf(),
                extends(old(self)@, self@),
                codegen::compile_defines(Unit { env: old(env)@, c: old(self)@ }, views(body@), from as nat)
                    == codegen::compile_defines(
                    Unit { env: env@, c: self@ },
                    views(body@),
                    i as nat,
                ),
            decreases body.len() - i,
        {
            let item = &body[i];
            match item {
                Expr::List(definition) => {
                    if headed_by(item, "define") {
                        assert(decreases_to!(body => definition)) by {
                            assert(decreases_to!(body => body@));
                            assert(decreases_to!(body@ => body@[i as int]));
                            assert(decreases_to!(item => item->List_0));
                        }
                        assert(views(body@)[i as int]->List_0 == views(definition@));
                        self.compile_define_form(env, definition)?;
                        i += 1;
                    } else if headed_by(item, "define-syntax") {
                        return Err(Error::Unimplemented(Feature::DefineSyntax));
                    } else {
                        return Ok(i);
                    }
                },
                _ => {
                    return Ok(i);
                },
            }
        }
        Ok(i)
    }

    /// Compile the body of a procedure: definitions first, then expressions.
    fn compile_body(&mut self, env: &mut Env, body: &Vec<Expr>, from: usize) -> (done: Result<
        (),
        Error,
    >)
        requires
            old(self)@.wf(),
            old(env).wf(),
        ensures
            final(env).wf(),
            agrees(
                done,
                final(env)@,
                final(self)@,
                codegen::compile_body(Unit { env: old(env)@, c: old(self)@ }, views(body@), from as nat),
            ),
            done is Ok ==> final(self)@.wf() && extends(old(self)@, final(self)@),
        decreases body, 0nat, body.len() + 2,
    {
        if from > body.len() {
            return Ok(());
        }
        let outer_context = self.context;
        // The start of a body is where definitions are allowed.
        self.set_context(Context::BodyStart);
        let rest = self.compile_defines(env, body, from)?;
        // No further definitions are allowed from here on.
        self.set_context(Context::BodyRest);
        self.compile_sequence(env, body, rest)?;
        self.set_context(outer_context);
        Ok(())
    }

    /// After the test of a conditional.
    fn if_begin(&mut self, env: &Env)
        requires
            old(self)@.wf(),
        ensures
            final(self)@ == codegen::if_begin(Unit { env: env@, c: old(self)@ }).c,
            env@ == codegen::if_begin(Unit { env: env@, c: old(self)@ }).env,
            final(self)@.wf(),
            extends(old(self)@, final(self)@),
            final(self)@.proc.code.len() == old(self)@.proc.code.len() + 2,
    {
        reveal(codegen::if_begin);
        // The targets of the jumps are filled in once they are known.
        self.emit(Op::JumpFalse(JumpAddr::zero()));
        self.emit(Op::Pop);
    }

    /// After the consequent of a conditional.
    fn if_middle(&mut self, env: &Env, branch: usize) -> (done: Result<(), Error>)
        requires
            old(self)@.wf(),
            branch < old(self)@.proc.code.len(),
        ensures
            agrees(
                done,
                env@,
                final(self)@,
                codegen::if_middle(branch as nat, Unit { env: env@, c: old(self)@ }),
            ),
            done is Ok ==> final(self)@.wf() && extends(old(self)@, final(self)@),
            done is Ok ==> final(self)@.proc.code.len() > old(self)@.proc.code.len(),
    {
        reveal(codegen::if_middle);
        self.emit(Op::Jump(JumpAddr::zero()));
        let otherwise = match JumpAddr::checked(self.code_len()) {
            Some(addr) => addr,
            None => {
                return Err(Error::compile(CompileError::JumpTooFar));
            },
        };
        self.patch(branch, Op::JumpFalse(otherwise));
        self.emit(Op::Pop);
        Ok(())
    }

    /// After the alternative of a conditional.
    fn if_end(&mut self, env: &Env, skip: usize) -> (done: Result<(), Error>)
        requires
            old(self)@.wf(),
            skip < old(self)@.proc.code.len(),
        ensures
            agrees(
                done,
                env@,
                final(self)@,
                codegen::if_end(skip as nat, Unit { env: env@, c: old(self)@ }),
            ),
            done is Ok ==> final(self)@.wf() && extends(old(self)@, final(self)@),
    {
        reveal(codegen::if_end);
        let end = match JumpAddr::checked(self.code_len()) {
            Some(addr) => addr,
            None => {
                return Err(Error::compile(CompileError::JumpTooFar));
            },
        };
        self.patch(skip, Op::Jump(end));
        Ok(())
    }

    /// Compile the `if` special form.
    ///
    /// The test stays on the stack across the conditional jump, so both
    /// paths start by popping it.
    fn compile_if_form(&mut self, env: &mut Env, list: &Vec<Expr>) -> (done: Result<(), Error>)
        requires
            old(self)@.wf(),
            old(env).wf(),
        ensures
            final(env).wf(),
            agrees(
                done,
                final(env)@,
                final(self)@,
                codegen::compile_if_form(Unit { env: old(env)@, c: old(self)@ }, views(list@)),
            ),
            done is Ok ==> final(self)@.wf() && extends(old(self)@, final(self)@),
        decreases list, 1nat, 0nat,
    {
        if list.len() < 3 || list.len() > 4 {
            return Err(Error::compile(CompileError::IllFormedSpecialForm));
        }
        proof {
            assert(decreases_to!(list => list@));
            assert(decreases_to!(list@ => list@[1]));
            assert(decreases_to!(list@ => list@[2]));
        }
        self.compile_expr(env, &list[1])?;
        let branch: usize = self.code_len();
        self.if_begin(env);
        self.compile_expr(env, &list[2])?;
        let skip: usize = self.code_len();
        self.if_middle(env, branch)?;
        if list.len() == 4 {
            proof {
                assert(decreases_to!(list@ => list@[3]));
            }
            self.compile_expr(env, &list[3])?;
        } else {
            self.emit(Op::PushVoid);
        }
        self.if_end(env, skip)
    }

    /// Consume the compiler and take the procedure as the program.
    fn take_procedure(self) -> (proc: Proc)
        requires
            self@.wf(),
        ensures
            proc@ == self@.proc.finish(),
    {
        let Self { proc, .. } = self;
        proc.into_proc().0
    }
}

/// The special form that an operator name stands for.
fn special_form(name: &str) -> (special: Option<Special>)
    ensures
        special == codegen::special_form(name@),
{
    reveal(codegen::special_form);
    if str_eq(name, "define") {
        Some(Special::Define)
    } else if str_eq(name, "lambda") {
        Some(Special::Lambda)
    } else if str_eq(name, "if") {
        Some(Special::If)
    } else if str_eq(name, "let") {
        Some(Special::Reserved(Feature::Let))
    } else if str_eq(name, "let*") {
        Some(Special::Reserved(Feature::LetStar))
    } else if str_eq(name, "letrec") {
        Some(Special::Reserved(Feature::LetRec))
    } else if str_eq(name, "fluid-let") {
        Some(Special::Reserved(Feature::FluidLet))
    } else if str_eq(name, "set!") {
        Some(Special::Reserved(Feature::SetBang))
    } else if str_eq(name, "quote") {
        Some(Special::Reserved(Feature::Quote))
    } else if str_eq(name, "define-syntax") {
        Some(Special::Reserved(Feature::DefineSyntax))
    } else {
        None
    }
}

/// The special form that a list is, going by its first item.
fn special_of(list: &Vec<Expr>) -> (special: Option<Special>)
    ensures
        special == codegen::special_of(views(list@)),
{
    if list.len() > 0 {
        match &list[0] {
            Expr::Ident(operator) => special_form(operator.as_str()),
            _ => None,
        }
    } else {
        None
    }
}

/// Whether an expression is a list headed by the identifier `name`.
fn headed_by(expr: &Expr, name: &str) -> (headed: bool)
    ensures
        headed == codegen::headed_by(expr@, name@),
        headed ==> expr is List,
{
    reveal(codegen::headed_by);
    match expr {
        Expr::List(list) => {
            if list.len() > 0 {
                match &list[0] {
                    Expr::Ident(operator) => str_eq(operator.as_str(), name),
                    _ => false,
                }
            } else {
                false
            }
        },
        _ => false,
    }
}

/// Compile a program into bytecode.
///
/// The program becomes a procedure without arguments in the environment,
/// and the result is a closure of it, ready to be run.  The names that the
/// program defines at its top level are interned in the environment.
pub fn compile(env: &mut Env, expr: &Expr) -> (closure: Result<ClosureId, Error>)
    requires
        old(env).wf(),
    ensures
        final(env).wf(),
        final(env)@ == codegen::compile(old(env)@, expr@).0,
        match closure {
            Ok(id) => codegen::compile(old(env)@, expr@).1 == Ok::<ClosureId, ErrorView>(id),
            Err(error) => codegen::compile(old(env)@, expr@).1 == Err::<ClosureId, ErrorView>(
                error@,
            ),
        },
{
    // The program is compiled as a procedure of its own.
    let mut compiler = Compiler::new();
    match compiler.compile_expr(env, expr) {
        Ok(()) => {},
        Err(error) => {
            return Err(error);
        },
    }
    compiler.compile_end();
    if !env.can_add_procedure() {
        return Err(Error::compile(CompileError::TooManyProcedures));
    }
    let proc = compiler.take_procedure();
    let proc_id = env.add_procedure(proc);
    let closure = Closure::new(proc_id);
    Ok(env.alloc_closure(closure))
}

} // verus!
