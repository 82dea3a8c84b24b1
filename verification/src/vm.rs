//! The virtual machine: a stack machine that runs the bytecode of closures.
//!
//! The machine never calls into the host.  When a program calls a native
//! function the run stops and hands the call out; the host computes the
//! result and resumes the machine with it.
use vstd::prelude::*;

use crate::env::{Env, EnvView};
use crate::error::{Error, ErrorView, RuntimeError};
use crate::expr::{
    group_views, views, CellId, Closure, ClosureId, Expr, ExprView, NativeFunc, Proc, UpValue,
};
use crate::machine::{
    capture, cell_value, close_cells, enter, exec_op, fetch, instructions, interpret, leave,
    lemma_batch_fuel, lemma_interpret_batch, resumed, running_closure, running_proc, started,
    top_or_void, voids, ActionView, Captured, Core, FrameView, OpResult, OutcomeView, VmView,
};
use crate::opcode::{Op, UpValueOrigin};

verus! {

broadcast use group_views;

/// One activation of a closure.
#[derive(Debug)]
pub struct CallFrame {
    /// The closure being run.
    closure: ClosureId,
    /// The position on the operand stack where this frame's arguments and
    /// locals start.
    stack_offset: usize,
    /// The cells that captured a local of this frame.  They are closed when
    /// the frame returns.
    up_values: Vec<CellId>,
    /// The index of the next instruction.
    pc: usize,
}

impl View for CallFrame {
    type V = FrameView;

    closed spec fn view(&self) -> FrameView {
        FrameView {
            closure: self.closure,
            stack_offset: self.stack_offset as nat,
            up_values: self.up_values@,
            pc: self.pc as nat,
        }
    }
}

/// The frames of a call stack, as the semantics sees them.
pub closed spec fn frame_views(frames: Seq<CallFrame>) -> Seq<FrameView> {
    Seq::new(frames.len(), |i: int| frames[i]@)
}

/// A request of the dispatch loop to the driver around it.
#[derive(Debug)]
pub enum ProcAction {
    /// Run the closure; its arguments start at the given stack position.
    Call(ClosureId, usize),
    /// Replace the running frame by a call.  Reserved: never requested.
    TailCall,
    /// Leave the running frame with a result.
    Return(Expr),
    /// Let the host run a function; its arguments start at the given stack position.
    Native(NativeFunc, usize),
    /// The step budget is used up.
    Yield,
}

impl View for ProcAction {
    type V = ActionView;

    open spec fn view(&self) -> ActionView {
        match self {
            ProcAction::Call(callee, lo) => ActionView::Call(*callee, *lo as nat),
            ProcAction::TailCall => ActionView::TailCall,
            ProcAction::Return(value) => ActionView::Return(value@),
            ProcAction::Native(func, lo) => ActionView::Native(*func, *lo as nat),
            ProcAction::Yield => ActionView::Yield,
        }
    }
}

/// How a run ended.
#[derive(Debug)]
pub enum Outcome {
    /// The program returned a value.
    Done(Expr),
    /// The program called a function of the host.  The host computes the
    /// result and hands it to [`resume`].
    Native { func: NativeFunc, args: Vec<Expr> },
    /// The step budget is used up.  [`proceed`] runs on.
    Paused,
    /// The program failed.
    Failed(Error),
}

impl View for Outcome {
    type V = OutcomeView;

    open spec fn view(&self) -> OutcomeView {
        match self {
            Outcome::Done(value) => OutcomeView::Done(value@),
            Outcome::Native { func, args } => OutcomeView::Native {
                func: *func,
                args: views(args@),
            },
            Outcome::Paused => OutcomeView::Paused,
            Outcome::Failed(error) => OutcomeView::Failed(error@),
        }
    }
}

/// The result of one instruction.
enum Stepped {
    Continue,
    Action(ProcAction),
    Fail(RuntimeError),
}

pub struct Vm {
    /// The operand stack.
    operand: Vec<Expr>,
    /// The call stack.  While the dispatch loop runs, the running frame is
    /// held by the loop and the top of this stack is its caller.
    frames: Vec<CallFrame>,
    /// Where the arguments of the native call start that the machine waits for.
    pending: Option<usize>,
}

impl View for Vm {
    type V = VmView;

    closed spec fn view(&self) -> VmView {
        VmView {
            operand: views(self.operand@),
            frames: frame_views(self.frames@),
            pending: match self.pending {
                Some(lo) => Some(lo as nat),
                None => None,
            },
        }
    }
}

/// The top of the stack, or void if the stack is empty.
fn top_value(operand: &Vec<Expr>) -> (value: Expr)
    ensures
        value@ == top_or_void(views(operand@)),
{
    if operand.len() > 0 {
        operand[operand.len() - 1].duplicate()
    } else {
        Expr::Void
    }
}

/// The closure that a frame runs.
fn closure_of<'a>(env: &'a Env, frame: &CallFrame) -> (closure: Option<&'a Closure>)
    ensures
        closure is Some == running_closure(env@, frame@) is Some,
        closure matches Some(c) ==> running_closure(env@, frame@) == Some(c@),
{
    env.closure(frame.closure)
}

/// The prototype of the closure that a frame runs.
fn proc_of<'a>(env: &'a Env, frame: &CallFrame) -> (proc: Option<&'a Proc>)
    ensures
        proc is Some == running_proc(env@, frame@) is Some,
        proc matches Some(p) ==> running_proc(env@, frame@) == Some(p@),
{
    match env.closure(frame.closure) {
        Some(closure) => env.procedure(closure.procedure()),
        None => None,
    }
}

/// The instruction at the program counter of a frame.
fn fetch_op(env: &Env, frame: &CallFrame) -> (op: Option<Op>)
    ensures
        op == fetch(env@, frame@),
        op is Some ==> frame@.pc < usize::MAX,
{
    match proc_of(env, frame) {
        Some(proc) => proc.op(frame.pc),
        None => None,
    }
}

/// The value seen through a cell.
fn read_cell(env: &Env, operand: &Vec<Expr>, id: CellId) -> (value: Option<Expr>)
    requires
        id.0 < env@.cells.len(),
    ensures
        value is Some == cell_value(env@.cells[id.0 as int], views(operand@)) is Some,
        value matches Some(v) ==> cell_value(env@.cells[id.0 as int], views(operand@)) == Some(
            v@,
        ),
{
    match env.cell(id) {
        Some(UpValue::Open(pos)) => {
            if *pos < operand.len() {
                Some(operand[*pos].duplicate())
            } else {
                None
            }
        },
        Some(UpValue::Closed(value)) => Some(value.duplicate()),
        None => None,
    }
}

/// Close the cells that captured a local of the frame.
fn close_up_values(env: &mut Env, operand: &Vec<Expr>, frame: &CallFrame) -> (ok: bool)
    requires
        old(env).wf(),
    ensures
        final(env).wf(),
        ({
            let (cells, closed) = close_cells(
                old(env)@.cells,
                views(operand@),
                frame@.up_values,
                0,
            );
            ok == closed && final(env)@ == (EnvView { cells, ..old(env)@ })
        }),
{
    let mut i: usize = 0;
    while i < frame.up_values.len()
        invariant
            i <= frame.up_values.len(),
            env.wf(),
            env@ == (EnvView { cells: env@.cells, ..old(env)@ }),
            close_cells(old(env)@.cells, views(operand@), frame@.up_values, 0) == close_cells(
                env@.cells,
                views(operand@),
                frame@.up_values,
                i as nat,
            ),
        decreases frame.up_values.len() - i,
    {
        let id = frame.up_values[i];
        if id.0 >= env.cell_count() {
            return false;
        }
        match read_cell(env, operand, id) {
            Some(value) => {
                env.set_cell(id, UpValue::Closed(value));
            },
            None => {
                return false;
            },
        }
        i += 1;
    }
    true
}

/// Read the capture instructions that follow a `CreateClosure`.
fn capture_up_values(env: &mut Env, operand: &Vec<Expr>, frame: &mut CallFrame, count: usize) -> (cells:
    Option<Vec<CellId>>)
    requires
        old(env).wf(),
    ensures
        final(env).wf(),
        match capture(
            Core { env: old(env)@, operand: views(operand@), frame: old(frame)@ },
            count as nat,
            Seq::empty(),
        ) {
            Captured::Cells(core, ids) => cells matches Some(c) && c@ == ids && final(env)@
                == core.env && final(frame)@ == core.frame && core.operand == views(operand@),
            Captured::Invalid(failed_env) => cells is None && final(env)@ == failed_env,
        },
{
    let mut cells: Vec<CellId> = Vec::new();
    let mut i: usize = 0;
    while i < count
        invariant
            i <= count,
            env.wf(),
            capture(
                Core { env: old(env)@, operand: views(operand@), frame: old(frame)@ },
                count as nat,
                Seq::empty(),
            ) == capture(
                Core { env: env@, operand: views(operand@), frame: frame@ },
                (count - i) as nat,
                cells@,
            ),
        decreases count - i,
    {
        match fetch_op(env, frame) {
            Some(Op::CaptureValue(UpValueOrigin::Parent(local))) => {
                match frame.stack_offset.checked_add(local.as_usize()) {
                    Some(pos) => {
                        let id = env.alloc_cell(UpValue::Open(pos));
                        cells.push(id);
                        frame.up_values.push(id);
                        frame.pc = frame.pc + 1;
                    },
                    None => {
                        return None;
                    },
                }
            },
            Some(Op::CaptureValue(UpValueOrigin::Outer(up))) => {
                let shared = match closure_of(env, frame) {
                    Some(closure) => closure.up_value(up.as_usize()),
                    None => None,
                };
                match shared {
                    Some(id) => {
                        cells.push(id);
                        frame.pc = frame.pc + 1;
                    },
                    None => {
                        return None;
                    },
                }
            },
            _ => {
                return None;
            },
        }
        i += 1;
    }
    Some(cells)
}

/// Whether the machine did what the semantics says the instruction does.
spec fn agrees(
    result: OpResult,
    env: EnvView,
    operand: Seq<ExprView>,
    frame: FrameView,
    stepped: Stepped,
) -> bool {
    match result {
        OpResult::Continue(core) => stepped is Continue && env == core.env && operand
            == core.operand && frame == core.frame,
        OpResult::Action(core, action) => stepped matches Stepped::Action(a) && a@ == action
            && env == core.env && operand == core.operand && frame == core.frame,
        OpResult::Fail(failed_env, error) => stepped matches Stepped::Fail(e) && e == error
            && env == failed_env,
    }
}

/// Run the instruction at the program counter.
fn dispatch(operand: &mut Vec<Expr>, env: &mut Env, frame: &mut CallFrame) -> (stepped: Stepped)
    requires
        old(env).wf(),
    ensures
        final(env).wf(),
        agrees(
            exec_op(Core { env: old(env)@, operand: views(old(operand)@), frame: old(frame)@ }),
            final(env)@,
            views(final(operand)@),
            final(frame)@,
            stepped,
        ),
{
    let op = match fetch_op(env, frame) {
        Some(op) => op,
        None => {
            return Stepped::Fail(RuntimeError::InvalidBytecode);
        },
    };
    frame.pc = frame.pc + 1;
    match op {
        Op::Bail => {
            Stepped::Fail(RuntimeError::InvalidBytecode)
        },
        Op::PushNil => {
            operand.push(Expr::Nil);
            Stepped::Continue
        },
        Op::PushVoid => {
            operand.push(Expr::Void);
            Stepped::Continue
        },
        Op::PushTrue => {
            operand.push(Expr::Bool(true));
            Stepped::Continue
        },
        Op::PushFalse => {
            operand.push(Expr::Bool(false));
            Stepped::Continue
        },
        Op::PushConstant(constant_id) => {
            let constant = match proc_of(env, frame) {
                Some(proc) => proc.constant(constant_id.as_usize()),
                None => None,
            };
            let value = match constant {
                Some(value) => value.duplicate(),
                None => Expr::Void,
            };
            operand.push(value);
            Stepped::Continue
        },
        Op::Pop => {
            let _ = operand.pop();
            Stepped::Continue
        },
        Op::JumpFalse(addr) => {
            let jump = operand.len() > 0 && match &operand[operand.len() - 1] {
                Expr::Bool(false) => true,
                _ => false,
            };
            if jump {
                frame.pc = addr.as_usize();
            }
            Stepped::Continue
        },
        Op::Jump(addr) => {
            frame.pc = addr.as_usize();
            Stepped::Continue
        },
        Op::Return | Op::End => {
            let value = match operand.pop() {
                Some(value) => value,
                None => Expr::Void,
            };
            if close_up_values(env, operand, frame) {
                frame.up_values = Vec::new();
                Stepped::Action(ProcAction::Return(value))
            } else {
                Stepped::Fail(RuntimeError::InvalidBytecode)
            }
        },
        Op::LoadEnvVar(symbol) => {
            let loaded = match env.get_var(symbol) {
                Some(value) => Some(value.duplicate()),
                None => None,
            };
            match loaded {
                Some(value) => {
                    operand.push(value);
                    Stepped::Continue
                },
                None => Stepped::Fail(RuntimeError::UndefinedVariable),
            }
        },
        Op::StoreEnvVar(symbol) => {
            let value = top_value(operand);
            match env.set_var(symbol, value) {
                Ok(()) => Stepped::Continue,
                Err(_) => Stepped::Fail(RuntimeError::UndeclaredVariable),
            }
        },
        Op::LoadUpValue(up) => {
            let cell = match closure_of(env, frame) {
                Some(closure) => closure.up_value(up.as_usize()),
                None => None,
            };
            let loaded = match cell {
                Some(id) => if id.0 < env.cell_count() {
                    read_cell(env, operand, id)
                } else {
                    None
                },
                None => None,
            };
            match loaded {
                Some(value) => {
                    operand.push(value);
                    Stepped::Continue
                },
                None => Stepped::Fail(RuntimeError::InvalidBytecode),
            }
        },
        Op::StoreUpValue(up) => {
            let value = top_value(operand);
            let cell = match closure_of(env, frame) {
                Some(closure) => closure.up_value(up.as_usize()),
                None => None,
            };
            let target: Option<(CellId, Option<usize>)> = match cell {
                Some(id) => match env.cell(id) {
                    Some(UpValue::Open(pos)) => Some((id, Some(*pos))),
                    Some(UpValue::Closed(_)) => Some((id, None)),
                    None => None,
                },
                None => None,
            };
            match target {
                Some((_, Some(pos))) => {
                    if pos < operand.len() {
                        operand[pos] = value;
                        Stepped::Continue
                    } else {
                        Stepped::Fail(RuntimeError::InvalidBytecode)
                    }
                },
                Some((id, None)) => {
                    env.set_cell(id, UpValue::Closed(value));
                    Stepped::Continue
                },
                None => Stepped::Fail(RuntimeError::InvalidBytecode),
            }
        },
        Op::LoadLocalVar(local) => {
            let height: usize = operand.len();
            let value = match frame.stack_offset.checked_add(local.as_usize()) {
                Some(pos) => if pos < height {
                    operand[pos].duplicate()
                } else {
                    Expr::Void
                },
                None => Expr::Void,
            };
            operand.push(value);
            Stepped::Continue
        },
        Op::StoreLocalVar(local) => {
            let value = top_value(operand);
            let height: usize = operand.len();
            match frame.stack_offset.checked_add(local.as_usize()) {
                Some(pos) => if pos < height {
                    operand[pos] = value;
                    Stepped::Continue
                } else {
                    Stepped::Fail(RuntimeError::InvalidBytecode)
                },
                None => Stepped::Fail(RuntimeError::InvalidBytecode),
            }
        },
        Op::CaptureValue(_) => {
            Stepped::Fail(RuntimeError::InvalidBytecode)
        },
        Op::CreateClosure(proc_id) => {
            let count = match env.procedure(proc_id) {
                Some(prototype) => Some(prototype.up_value_count()),
                None => None,
            };
            match count {
                Some(count) => match capture_up_values(env, operand, frame, count) {
                    Some(cells) => {
                        let handle = env.alloc_closure(Closure::with_up_values(proc_id, cells));
                        operand.push(Expr::Closure(handle));
                        Stepped::Continue
                    },
                    None => Stepped::Fail(RuntimeError::InvalidBytecode),
                },
                None => Stepped::Fail(RuntimeError::InvalidBytecode),
            }
        },
        Op::CallClosure { arity } => {
            let count: usize = arity as usize;
            if operand.len() <= count {
                Stepped::Fail(RuntimeError::StackUnderflow)
            } else {
                let lo: usize = operand.len() - count;
                // The value just below the arguments is the callee.
                match &operand[lo - 1] {
                    Expr::Closure(callee) => Stepped::Action(ProcAction::Call(*callee, lo)),
                    _ => Stepped::Fail(RuntimeError::InvalidCallable),
                }
            }
        },
        Op::CallNative { arity } => {
            let count: usize = arity as usize;
            if operand.len() <= count {
                Stepped::Fail(RuntimeError::StackUnderflow)
            } else {
                let lo: usize = operand.len() - count;
                match &operand[lo - 1] {
                    // A native call pushes no frame: the host runs the function.
                    Expr::NativeFunc(func) => Stepped::Action(ProcAction::Native(*func, lo)),
                    // A closure in the place of a native function is called all the same.
                    Expr::Closure(callee) => Stepped::Action(ProcAction::Call(*callee, lo)),
                    _ => Stepped::Fail(RuntimeError::InvalidCallable),
                }
            }
        },
    }
}

/// Run the bytecode instruction loop: run instructions of the frame until
/// one asks the driver for something, one fails, or the budget is used up.
#[verifier::loop_isolation(false)]
fn run_instructions(vm: &mut Vm, env: &mut Env, frame: &mut CallFrame, fuel: &mut u64) -> (result:
    Result<ProcAction, Error>)
    requires
        old(env).wf(),
    ensures
        final(env).wf(),
        final(vm).frames@ == old(vm).frames@,
        final(vm).pending == old(vm).pending,
        ({
            let batch = instructions(
                Core { env: old(env)@, operand: views(old(vm).operand@), frame: old(frame)@ },
                *old(fuel) as nat,
            );
            &&& final(env)@ == batch.core.env
            &&& *final(fuel) == batch.fuel
            &&& match result {
                Ok(action) => batch.result == Ok::<ActionView, RuntimeError>(action@) && views(
                    final(vm).operand@,
                ) == batch.core.operand && final(frame)@ == batch.core.frame,
                Err(error) => batch.result matches Err(kind) && error@ == ErrorView::Runtime(
                    kind,
                ),
            }
        }),
{
    let ghost start = Core { env: env@, operand: views(vm.operand@), frame: frame@ };
    let ghost budget = *fuel as nat;
    loop
        invariant
            env.wf(),
            vm.frames@ == old(vm).frames@,
            vm.pending == old(vm).pending,
            instructions(start, budget) == instructions(
                Core { env: env@, operand: views(vm.operand@), frame: frame@ },
                *fuel as nat,
            ),
        decreases *fuel,
    {
        if *fuel == 0 {
            return Ok(ProcAction::Yield);
        }
        *fuel = *fuel - 1;
        match dispatch(&mut vm.operand, env, frame) {
            Stepped::Continue => {},
            Stepped::Action(action) => {
                return Ok(action);
            },
            Stepped::Fail(error) => {
                return Err(Error::Runtime(error));
            },
        }
    }
}

/// Enter a closure whose arguments are the stack from `lo` up.
#[verifier::loop_isolation(false)]
fn enter_frame(operand: &mut Vec<Expr>, env: &Env, callee: ClosureId, lo: usize) -> (frame: Result<
    CallFrame,
    RuntimeError,
>)
    ensures
        match enter(env@, views(old(operand)@), callee, lo as nat) {
            Ok((stack, view)) => frame matches Ok(f) && f@ == view && views(final(operand)@)
                == stack,
            Err(error) => frame matches Err(e) && e == error,
        },
{
    let proc = match env.closure(callee) {
        Some(closure) => env.procedure(closure.procedure()),
        None => None,
    };
    let (sig, local_count) = match proc {
        Some(proc) => (proc.signature(), proc.local_count()),
        None => {
            return Err(RuntimeError::InvalidCallable);
        },
    };
    let height: usize = operand.len();
    if lo > height {
        return Err(RuntimeError::StackUnderflow);
    }
    if !sig.admits(height - lo) {
        return Err(RuntimeError::WrongArity);
    }
    if sig.variadic {
        // The arguments beyond the fixed ones become one list.
        let fixed: usize = lo + sig.arity as usize;
        let mut rest: Vec<Expr> = Vec::new();
        let mut i: usize = fixed;
        while i < height
            invariant
                fixed <= i <= height,
                height == operand.len(),
                views(rest@) == views(operand@).subrange(fixed as int, i as int),
            decreases height - i,
        {
            rest.push(operand[i].duplicate());
            assert(views(rest@) =~= views(operand@).subrange(fixed as int, i + 1));
            i += 1;
        }
        operand.truncate(fixed);
        assert(views(operand@) =~= views(old(operand)@).subrange(0, fixed as int));
        operand.push(Expr::List(rest));
        assert(Expr::List(rest)@ == ExprView::List(views(rest@)));
    }
    let ghost args = views(operand@);
    assert(args == (if sig.variadic {
        views(old(operand)@).subrange(0, lo + sig.arity).push(
            ExprView::List(views(old(operand)@).subrange(lo + sig.arity, height as int)),
        )
    } else {
        views(old(operand)@)
    }));
    let mut k: usize = 0;
    while k < local_count
        invariant
            k <= local_count,
            views(operand@) =~= args + voids(k as nat),
        decreases local_count - k,
    {
        operand.push(Expr::Void);
        k += 1;
    }
    Ok(CallFrame { closure: callee, stack_offset: lo, up_values: Vec::new(), pc: 0 })
}

impl Vm {
    /// A machine at rest.
    pub fn new() -> (vm: Self)
        ensures
            vm@ == VmView::idle(),
    {
        let vm = Self { operand: Vec::new(), frames: Vec::new(), pending: None };
        assert(vm@.operand =~= Seq::empty());
        assert(vm@.frames =~= Seq::empty());
        vm
    }

    /// Put the machine back at rest.
    pub fn reset(&mut self)
        ensures
            final(self)@ == VmView::idle(),
    {
        self.operand.clear();
        self.frames.clear();
        self.pending = None;
        assert(self@.operand =~= Seq::empty());
        assert(self@.frames =~= Seq::empty());
    }

    /// Whether the machine is at rest: in the middle of no run.
    pub fn is_idle(&self) -> (idle: bool)
        ensures
            idle == (self@.frames.len() == 0 && self@.pending is None),
    {
        self.frames.len() == 0 && self.pending.is_none()
    }

    /// Run a closure without arguments.
    fn run(&mut self, env: &mut Env, closure: ClosureId, fuel: u64) -> (outcome: Outcome)
        requires
            old(env).wf(),
        ensures
            final(env).wf(),
            ({
                let run = started(old(env)@, old(self)@, closure, Seq::empty(), fuel as nat);
                final(env)@ == run.env && final(self)@ == run.vm && outcome@ == run.outcome
            }),
    {
        let args: Vec<Expr> = Vec::new();
        assert(views(args@) =~= Seq::empty());
        self.run_args(env, closure, &args, fuel)
    }

    /// Run a closure with arguments: push the closure and the arguments as
    /// a call instruction finds them, enter the closure, and run.
    fn run_args(&mut self, env: &mut Env, closure: ClosureId, args: &Vec<Expr>, fuel: u64) -> (outcome:
        Outcome)
        requires
            old(env).wf(),
        ensures
            final(env).wf(),
            ({
                let run = started(old(env)@, old(self)@, closure, views(args@), fuel as nat);
                final(env)@ == run.env && final(self)@ == run.vm && outcome@ == run.outcome
            }),
    {
        if !self.is_idle() {
            // The machine is in the middle of a run.
            return Outcome::Failed(Error::Runtime(RuntimeError::AlreadyRunning));
        }
        let ghost base = views(self.operand@);
        // The closure sits below its arguments, as for every call.
        self.operand.push(Expr::Closure(closure));
        let lo: usize = self.operand.len();
        let mut i: usize = 0;
        while i < args.len()
            invariant
                i <= args.len(),
                lo == base.len() + 1,
                self.pending is None,
                self.frames@.len() == 0,
                views(self.operand@) =~= base.push(ExprView::Closure(closure)) + views(
                    args@,
                ).subrange(0, i as int),
            decreases args.len() - i,
        {
            self.operand.push(args[i].duplicate());
            i += 1;
        }
        assert(views(args@).subrange(0, args@.len() as int) =~= views(args@));
        match enter_frame(&mut self.operand, env, closure, lo) {
            Ok(frame) => {
                self.frames.push(frame);
                assert(self@.frames =~= seq![frame@]);
                run_interpreter(self, env, fuel)
            },
            Err(error) => {
                self.reset();
                Outcome::Failed(Error::Runtime(error))
            },
        }
    }

    /// The frame of the caller while the dispatch loop runs.
    fn parent_frame(&self) -> (frame: Option<&CallFrame>)
        ensures
            frame is Some <==> self.frames@.len() > 0,
            frame matches Some(f) ==> *f == self.frames@.last(),
    {
        if self.frames.len() > 0 {
            Some(&self.frames[self.frames.len() - 1])
        } else {
            None
        }
    }
}

/// Run the interpreter loop: run instructions in the top frame, carry out
/// what they ask for, and go on until the program is done, calls the host,
/// fails, or has used up the budget.
#[verifier::loop_isolation(false)]
fn run_interpreter(vm: &mut Vm, env: &mut Env, fuel: u64) -> (outcome: Outcome)
    requires
        old(env).wf(),
    ensures
        final(env).wf(),
        ({
            let run = interpret(old(env)@, old(vm)@, fuel as nat);
            final(env)@ == run.env && final(vm)@ == run.vm && outcome@ == run.outcome
        }),
{
    if vm.pending.is_some() {
        vm.reset();
        return Outcome::Failed(Error::Runtime(RuntimeError::NotSuspended));
    }
    // The running frame is held here, off the call stack.
    let mut frame = match vm.frames.pop() {
        Some(frame) => frame,
        None => {
            vm.reset();
            return Outcome::Failed(Error::Runtime(RuntimeError::NotSuspended));
        },
    };
    let mut fuel = fuel;
    let ghost goal = interpret(old(env)@, old(vm)@, fuel as nat);
    assert(frame_views(vm.frames@).push(frame@) =~= old(vm)@.frames);
    loop
        invariant
            env.wf(),
            vm.pending is None,
            goal == interpret(
                env@,
                VmView {
                    operand: views(vm.operand@),
                    frames: frame_views(vm.frames@).push(frame@),
                    pending: None,
                },
                fuel as nat,
            ),
        decreases fuel,
    {
        let ghost parents = frame_views(vm.frames@);
        proof {
            let now = VmView {
                operand: views(vm.operand@),
                frames: parents.push(frame@),
                pending: None,
            };
            lemma_interpret_batch(env@, now, fuel as nat);
            lemma_batch_fuel(
                Core { env: env@, operand: views(vm.operand@), frame: frame@ },
                fuel as nat,
            );
            assert(now.frames.drop_last() =~= parents);
        }
        match run_instructions(vm, env, &mut frame, &mut fuel) {
            Err(error) => {
                vm.reset();
                return Outcome::Failed(error);
            },
            Ok(ProcAction::Call(callee, lo)) => {
                match enter_frame(&mut vm.operand, env, callee, lo) {
                    Ok(new_frame) => {
                        let old_frame = frame;
                        frame = new_frame;
                        vm.frames.push(old_frame);
                        assert(frame_views(vm.frames@) =~= parents.push(old_frame@));
                        assert(goal == interpret(
                            env@,
                            VmView {
                                operand: views(vm.operand@),
                                frames: frame_views(vm.frames@).push(frame@),
                                pending: None,
                            },
                            fuel as nat,
                        ));
                    },
                    Err(error) => {
                        vm.reset();
                        return Outcome::Failed(Error::Runtime(error));
                    },
                }
            },
            Ok(ProcAction::TailCall) => {
                vm.reset();
                return Outcome::Failed(Error::Runtime(RuntimeError::InvalidBytecode));
            },
            Ok(ProcAction::Return(value)) => {
                // The callee sits on the stack just below the arguments.
                let ghost before = views(vm.operand@);
                if frame.stack_offset >= 1 {
                    vm.operand.truncate(frame.stack_offset - 1);
                } else {
                    vm.operand.clear();
                }
                assert(views(vm.operand@) =~= leave(before, frame@));
                match vm.frames.pop() {
                    Some(prev_frame) => {
                        frame = prev_frame;
                        vm.operand.push(value);
                        assert(frame_views(vm.frames@).push(frame@) =~= parents);
                        assert(goal == interpret(
                            env@,
                            VmView {
                                operand: views(vm.operand@),
                                frames: frame_views(vm.frames@).push(frame@),
                                pending: None,
                            },
                            fuel as nat,
                        ));
                    },
                    None => {
                        vm.reset();
                        return Outcome::Done(value);
                    },
                }
            },
            Ok(ProcAction::Native(func, lo)) => {
                let mut args: Vec<Expr> = Vec::new();
                let mut i: usize = lo;
                while i < vm.operand.len()
                    invariant
                        lo <= i <= vm.operand.len(),
                        views(args@) == views(vm.operand@).subrange(lo as int, i as int),
                    decreases vm.operand.len() - i,
                {
                    args.push(vm.operand[i].duplicate());
                    assert(views(args@) =~= views(vm.operand@).subrange(lo as int, i + 1));
                    i += 1;
                }
                vm.frames.push(frame);
                vm.pending = Some(lo);
                assert(frame_views(vm.frames@) =~= parents.push(frame@));
                return Outcome::Native { func, args };
            },
            Ok(ProcAction::Yield) => {
                vm.frames.push(frame);
                assert(frame_views(vm.frames@) =~= parents.push(frame@));
                return Outcome::Paused;
            },
        }
    }
}

/// Run a top-level closure for at most `fuel` instructions.
///
/// A machine that is in the middle of a run refuses and is left as it is.
pub fn eval(vm: &mut Vm, env: &mut Env, closure: ClosureId, fuel: u64) -> (outcome: Outcome)
    requires
        old(env).wf(),
    ensures
        final(env).wf(),
        ({
            let run = started(old(env)@, old(vm)@, closure, Seq::empty(), fuel as nat);
            final(env)@ == run.env && final(vm)@ == run.vm && outcome@ == run.outcome
        }),
{
    vm.run(env, closure, fuel)
}

/// Call a closure with arguments, as a call instruction would, and run it
/// for at most `fuel` instructions.
pub fn call(vm: &mut Vm, env: &mut Env, closure: ClosureId, args: &Vec<Expr>, fuel: u64) -> (outcome:
    Outcome)
    requires
        old(env).wf(),
    ensures
        final(env).wf(),
        ({
            let run = started(old(env)@, old(vm)@, closure, views(args@), fuel as nat);
            final(env)@ == run.env && final(vm)@ == run.vm && outcome@ == run.outcome
        }),
{
    vm.run_args(env, closure, args, fuel)
}

/// Hand the result of a native call to the machine that waits for it, and
/// run on for at most `fuel` instructions.
///
/// A machine that waits for no result refuses and is left as it is.
pub fn resume(vm: &mut Vm, env: &mut Env, value: Expr, fuel: u64) -> (outcome: Outcome)
    requires
        old(env).wf(),
    ensures
        final(env).wf(),
        ({
            let run = resumed(old(env)@, old(vm)@, value@, fuel as nat);
            final(env)@ == run.env && final(vm)@ == run.vm && outcome@ == run.outcome
        }),
{
    match vm.pending {
        Some(lo) => {
            if 1 <= lo && lo <= vm.operand.len() && vm.frames.len() > 0 {
                // The result takes the place of the callee and its arguments.
                vm.operand.truncate(lo - 1);
                vm.operand.push(value);
                vm.pending = None;
                run_interpreter(vm, env, fuel)
            } else {
                vm.reset();
                Outcome::Failed(Error::Runtime(RuntimeError::NotSuspended))
            }
        },
        None => Outcome::Failed(Error::Runtime(RuntimeError::NotSuspended)),
    }
}

/// Run a paused machine on for at most `fuel` instructions.
pub fn proceed(vm: &mut Vm, env: &mut Env, fuel: u64) -> (outcome: Outcome)
    requires
        old(env).wf(),
    ensures
        final(env).wf(),
        ({
            let run = interpret(old(env)@, old(vm)@, fuel as nat);
            final(env)@ == run.env && final(vm)@ == run.vm && outcome@ == run.outcome
        }),
{
    run_interpreter(vm, env, fuel)
}

} // verus!
