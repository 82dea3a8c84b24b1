//! The meaning of bytecode: what one instruction does to the state of the
//! virtual machine, and what a run of instructions does.
//!
//! Everything here is mathematics; the executable machine in `vm` is proved
//! to compute exactly these functions.
use vstd::prelude::*;

use crate::env::EnvView;
use crate::error::{ErrorView, RuntimeError};
use crate::expr::{
    CellId, ClosureId, ClosureView, ExprView, NativeFunc, ProcView, UpValueView,
};
use crate::opcode::{Op, UpValueOrigin};

verus! {

/// One activation of a closure.
pub struct FrameView {
    /// The closure being run.
    pub closure: ClosureId,
    /// The position on the operand stack where the arguments and locals start.
    /// The callee itself sits one below.
    pub stack_offset: nat,
    /// The cells that captured a local of this frame and are still open.
    pub up_values: Seq<CellId>,
    /// The index of the next instruction.
    pub pc: nat,
}

/// What the dispatch loop sees: the environment, the operand stack and the
/// running frame.
pub struct Core {
    pub env: EnvView,
    pub operand: Seq<ExprView>,
    pub frame: FrameView,
}

/// A request of the dispatch loop to the driver around it.
pub enum ActionView {
    /// Run the closure; its arguments start at the given stack position.
    Call(ClosureId, nat),
    /// Replace the running frame by a call.  Reserved: never requested.
    TailCall,
    /// Leave the running frame with a result.
    Return(ExprView),
    /// Let the host run a function; its arguments start at the given stack position.
    Native(NativeFunc, nat),
    /// The step budget is used up.
    Yield,
}

/// The effect of one instruction.
pub enum OpResult {
    /// Go on with the next instruction.
    Continue(Core),
    /// Hand control to the driver.
    Action(Core, ActionView),
    /// Stop with an error.  Of the state only the environment is kept.
    Fail(EnvView, RuntimeError),
}

/// The top of the stack, or void if the stack is empty.
pub open spec fn top_or_void(operand: Seq<ExprView>) -> ExprView {
    if operand.len() > 0 {
        operand.last()
    } else {
        ExprView::Void
    }
}

/// The closure that a frame runs, if the handle is valid.
pub open spec fn running_closure(env: EnvView, frame: FrameView) -> Option<ClosureView> {
    if frame.closure.0 < env.closures.len() {
        Some(env.closures[frame.closure.0 as int])
    } else {
        None
    }
}

/// The prototype of the closure that a frame runs.
pub open spec fn running_proc(env: EnvView, frame: FrameView) -> Option<ProcView> {
    match running_closure(env, frame) {
        Some(closure) => if closure.proc.0 < env.procedures.len() {
            Some(env.procedures[closure.proc.0 as int])
        } else {
            None
        },
        None => None,
    }
}

/// The instruction at the program counter of a frame.
pub open spec fn fetch(env: EnvView, frame: FrameView) -> Option<Op> {
    match running_proc(env, frame) {
        Some(proc) => if frame.pc < proc.code.len() {
            Some(proc.code[frame.pc as int])
        } else {
            None
        },
        None => None,
    }
}

/// The value seen through an up-value cell: the stack slot it points at
/// while it is open, its own value once it is closed.
pub open spec fn cell_value(cell: UpValueView, operand: Seq<ExprView>) -> Option<ExprView> {
    match cell {
        UpValueView::Open(pos) => if pos < operand.len() {
            Some(operand[pos as int])
        } else {
            None
        },
        UpValueView::Closed(value) => Some(value),
    }
}

/// A cell after its frame has gone: an open cell takes over the value of
/// the stack slot it pointed at.
pub open spec fn closed_cell(cell: UpValueView, operand: Seq<ExprView>) -> Option<UpValueView> {
    match cell_value(cell, operand) {
        Some(value) => Some(UpValueView::Closed(value)),
        None => None,
    }
}

/// Close the cells `ids[from..]`, in order.  The result is the cells after
/// closing and whether all could be closed: closing stops at a handle that
/// is invalid and at an open cell that points outside the stack.
pub open spec fn close_cells(
    cells: Seq<UpValueView>,
    operand: Seq<ExprView>,
    ids: Seq<CellId>,
    from: nat,
) -> (Seq<UpValueView>, bool)
    decreases ids.len() - from,
{
    if from >= ids.len() {
        (cells, true)
    } else {
        let id = ids[from as int];
        if id.0 < cells.len() {
            match closed_cell(cells[id.0 as int], operand) {
                Some(cell) => close_cells(cells.update(id.0 as int, cell), operand, ids, from + 1),
                None => (cells, false),
            }
        } else {
            (cells, false)
        }
    }
}

/// The result of reading the capture instructions that follow a
/// `CreateClosure`.
pub enum Captured {
    /// All captures were read: the state after them and the cells of the new closure.
    Cells(Core, Seq<CellId>),
    /// A capture was missing or invalid.
    Invalid(EnvView),
}

/// Read `remaining` capture instructions at the program counter and collect
/// the cells they name onto `cells`.
pub open spec fn capture(core: Core, remaining: nat, cells: Seq<CellId>) -> Captured
    decreases remaining,
{
    if remaining == 0 {
        Captured::Cells(core, cells)
    } else {
        match fetch(core.env, core.frame) {
            Some(Op::CaptureValue(UpValueOrigin::Parent(local))) => {
                let pos = (core.frame.stack_offset + local.0) as nat;
                if pos <= usize::MAX {
                    let id = CellId(core.env.cells.len() as usize);
                    let next = Core {
                        env: EnvView {
                            cells: core.env.cells.push(UpValueView::Open(pos)),
                            ..core.env
                        },
                        operand: core.operand,
                        frame: FrameView {
                            up_values: core.frame.up_values.push(id),
                            pc: core.frame.pc + 1,
                            ..core.frame
                        },
                    };
                    capture(next, (remaining - 1) as nat, cells.push(id))
                } else {
                    Captured::Invalid(core.env)
                }
            },
            Some(Op::CaptureValue(UpValueOrigin::Outer(up))) => {
                match running_closure(core.env, core.frame) {
                    Some(closure) => if up.0 < closure.up_values.len() {
                        let next = Core {
                            frame: FrameView { pc: core.frame.pc + 1, ..core.frame },
                            ..core
                        };
                        capture(
                            next,
                            (remaining - 1) as nat,
                            cells.push(closure.up_values[up.0 as int]),
                        )
                    } else {
                        Captured::Invalid(core.env)
                    },
                    None => Captured::Invalid(core.env),
                }
            },
            _ => Captured::Invalid(core.env),
        }
    }
}

/// The state with a value pushed.
pub open spec fn pushed(core: Core, value: ExprView) -> OpResult {
    OpResult::Continue(Core { operand: core.operand.push(value), ..core })
}

/// The stack position where the arguments of a call with `arity` arguments
/// start, if the stack holds the callee and the arguments.
pub open spec fn call_base(operand: Seq<ExprView>, arity: u8) -> Option<nat> {
    if operand.len() >= arity + 1 {
        Some((operand.len() - arity) as nat)
    } else {
        None
    }
}

/// The effect of the instruction at the program counter.
pub open spec fn exec_op(before: Core) -> OpResult {
    match fetch(before.env, before.frame) {
        None => OpResult::Fail(before.env, RuntimeError::InvalidBytecode),
        Some(op) => {
            let core = Core {
                frame: FrameView { pc: before.frame.pc + 1, ..before.frame },
                ..before
            };
            let env = core.env;
            let operand = core.operand;
            let frame = core.frame;
            let fail = OpResult::Fail(env, RuntimeError::InvalidBytecode);
            match op {
                Op::Bail => fail,
                Op::PushNil => pushed(core, ExprView::Nil),
                Op::PushVoid => pushed(core, ExprView::Void),
                Op::PushTrue => pushed(core, ExprView::Bool(true)),
                Op::PushFalse => pushed(core, ExprView::Bool(false)),
                Op::PushConstant(id) => {
                    let constants = running_proc(env, frame)->0.constants;
                    if id.0 < constants.len() {
                        pushed(core, constants[id.0 as int])
                    } else {
                        pushed(core, ExprView::Void)
                    }
                },
                Op::Pop => if operand.len() > 0 {
                    OpResult::Continue(Core { operand: operand.drop_last(), ..core })
                } else {
                    OpResult::Continue(core)
                },
                Op::JumpFalse(addr) => if operand.len() > 0 && operand.last() == ExprView::Bool(
                    false,
                ) {
                    OpResult::Continue(
                        Core { frame: FrameView { pc: addr.index(), ..frame }, ..core },
                    )
                } else {
                    OpResult::Continue(core)
                },
                Op::Jump(addr) => OpResult::Continue(
                    Core { frame: FrameView { pc: addr.index(), ..frame }, ..core },
                ),
                Op::Return | Op::End => {
                    let value = top_or_void(operand);
                    let rest = if operand.len() > 0 {
                        operand.drop_last()
                    } else {
                        operand
                    };
                    let (cells, closed) = close_cells(env.cells, rest, frame.up_values, 0);
                    if closed {
                        OpResult::Action(
                            Core {
                                env: EnvView { cells, ..env },
                                operand: rest,
                                frame: FrameView { up_values: Seq::empty(), ..frame },
                            },
                            ActionView::Return(value),
                        )
                    } else {
                        OpResult::Fail(EnvView { cells, ..env }, RuntimeError::InvalidBytecode)
                    }
                },
                Op::LoadEnvVar(symbol) => match env.get(symbol) {
                    Some(value) => pushed(core, value),
                    None => OpResult::Fail(env, RuntimeError::UndefinedVariable),
                },
                Op::StoreEnvVar(symbol) => if symbol.0 < env.values.len() {
                    OpResult::Continue(
                        Core { env: env.set(symbol, top_or_void(operand)), ..core },
                    )
                } else {
                    OpResult::Fail(env, RuntimeError::UndeclaredVariable)
                },
                Op::LoadUpValue(up) => {
                    let cells = running_closure(env, frame)->0.up_values;
                    if up.0 < cells.len() && cells[up.0 as int].0 < env.cells.len() {
                        match cell_value(env.cells[cells[up.0 as int].0 as int], operand) {
                            Some(value) => pushed(core, value),
                            None => fail,
                        }
                    } else {
                        fail
                    }
                },
                Op::StoreUpValue(up) => {
                    let cells = running_closure(env, frame)->0.up_values;
                    let value = top_or_void(operand);
                    if up.0 < cells.len() && cells[up.0 as int].0 < env.cells.len() {
                        let id = cells[up.0 as int];
                        match env.cells[id.0 as int] {
                            UpValueView::Open(pos) => if pos < operand.len() {
                                OpResult::Continue(
                                    Core { operand: operand.update(pos as int, value), ..core },
                                )
                            } else {
                                fail
                            },
                            UpValueView::Closed(_) => OpResult::Continue(
                                Core {
                                    env: EnvView {
                                        cells: env.cells.update(
                                            id.0 as int,
                                            UpValueView::Closed(value),
                                        ),
                                        ..env
                                    },
                                    ..core
                                },
                            ),
                        }
                    } else {
                        fail
                    }
                },
                Op::LoadLocalVar(local) => {
                    let pos = (frame.stack_offset + local.0) as int;
                    if pos < operand.len() {
                        pushed(core, operand[pos])
                    } else {
                        pushed(core, ExprView::Void)
                    }
                },
                Op::StoreLocalVar(local) => {
                    let pos = (frame.stack_offset + local.0) as int;
                    if pos < operand.len() {
                        OpResult::Continue(
                            Core { operand: operand.update(pos, top_or_void(operand)), ..core },
                        )
                    } else {
                        fail
                    }
                },
                Op::CaptureValue(_) => fail,
                Op::CreateClosure(proc) => if proc.0 < env.procedures.len() {
                    match capture(
                        core,
                        env.procedures[proc.0 as int].up_value_count,
                        Seq::empty(),
                    ) {
                        Captured::Cells(after, cells) => {
                            let id = ClosureId(after.env.closures.len() as usize);
                            OpResult::Continue(
                                Core {
                                    env: EnvView {
                                        closures: after.env.closures.push(
                                            ClosureView { proc, up_values: cells },
                                        ),
                                        ..after.env
                                    },
                                    operand: after.operand.push(ExprView::Closure(id)),
                                    frame: after.frame,
                                },
                            )
                        },
                        Captured::Invalid(failed_env) => OpResult::Fail(
                            failed_env,
                            RuntimeError::InvalidBytecode,
                        ),
                    }
                } else {
                    fail
                },
                Op::CallClosure { arity } => match call_base(operand, arity) {
                    Some(lo) => match operand[lo - 1] {
                        ExprView::Closure(callee) => OpResult::Action(
                            core,
                            ActionView::Call(callee, lo),
                        ),
                        _ => OpResult::Fail(env, RuntimeError::InvalidCallable),
                    },
                    None => OpResult::Fail(env, RuntimeError::StackUnderflow),
                },
                Op::CallNative { arity } => match call_base(operand, arity) {
                    Some(lo) => match operand[lo - 1] {
                        ExprView::NativeFunc(func) => OpResult::Action(
                            core,
                            ActionView::Native(func, lo),
                        ),
                        ExprView::Closure(callee) => OpResult::Action(
                            core,
                            ActionView::Call(callee, lo),
                        ),
                        _ => OpResult::Fail(env, RuntimeError::InvalidCallable),
                    },
                    None => OpResult::Fail(env, RuntimeError::StackUnderflow),
                },
            }
        },
    }
}

/// The outcome of a run of instructions within one frame.
pub struct Batch {
    pub core: Core,
    /// What is left of the step budget.
    pub fuel: nat,
    /// The request that ended the run, or the error.  After an error
    /// only the environment of `core` is meaningful.
    pub result: Result<ActionView, RuntimeError>,
}

/// Run instructions until one hands control to the driver, one fails, or
/// the budget of `fuel` instructions is used up.
pub open spec fn instructions(core: Core, fuel: nat) -> Batch
    decreases fuel,
{
    if fuel == 0 {
        Batch { core, fuel: 0, result: Ok(ActionView::Yield) }
    } else {
        match exec_op(core) {
            OpResult::Continue(next) => instructions(next, (fuel - 1) as nat),
            OpResult::Action(next, action) => Batch {
                core: next,
                fuel: (fuel - 1) as nat,
                result: Ok(action),
            },
            OpResult::Fail(env, error) => Batch {
                core: Core { env, ..core },
                fuel: (fuel - 1) as nat,
                result: Err(error),
            },
        }
    }
}

/// The state of the machine between runs.
pub struct VmView {
    pub operand: Seq<ExprView>,
    /// The call stack, the running frame last.
    pub frames: Seq<FrameView>,
    /// Where the arguments of the native call start that the machine waits for.
    pub pending: Option<nat>,
}

impl VmView {
    /// The machine at rest.
    pub open spec fn idle() -> VmView {
        VmView { operand: Seq::empty(), frames: Seq::empty(), pending: None }
    }
}

/// How a run ended.
pub enum OutcomeView {
    /// The program returned a value.
    Done(ExprView),
    /// The program called a function of the host with these arguments.
    Native { func: NativeFunc, args: Seq<ExprView> },
    /// The step budget is used up; the run can go on.
    Paused,
    /// The program failed.
    Failed(ErrorView),
}

/// A run: how it ended, and the state it left.
pub struct Run {
    pub env: EnvView,
    pub vm: VmView,
    pub outcome: OutcomeView,
}

/// A run that failed: the machine is back at rest.
pub open spec fn failed(env: EnvView, error: RuntimeError) -> Run {
    Run { env, vm: VmView::idle(), outcome: OutcomeView::Failed(ErrorView::Runtime(error)) }
}

/// `count` void values.
pub open spec fn voids(count: nat) -> Seq<ExprView> {
    Seq::new(count, |i: int| ExprView::Void)
}

/// Enter a closure whose arguments are the stack from `lo` up: check the
/// number of arguments, collect the surplus arguments of a variadic procedure
/// into a list, and reserve the locals.  The result is the new stack and the
/// new frame.
pub open spec fn enter(env: EnvView, operand: Seq<ExprView>, callee: ClosureId, lo: nat) -> Result<
    (Seq<ExprView>, FrameView),
    RuntimeError,
> {
    if callee.0 >= env.closures.len() || env.closures[callee.0 as int].proc.0
        >= env.procedures.len() {
        Err(RuntimeError::InvalidCallable)
    } else if lo > operand.len() {
        Err(RuntimeError::StackUnderflow)
    } else {
        let proc = env.procedures[env.closures[callee.0 as int].proc.0 as int];
        let count = (operand.len() - lo) as nat;
        if !proc.sig.accepts(count) {
            Err(RuntimeError::WrongArity)
        } else {
            let fixed = lo + proc.sig.arity;
            let args = if proc.sig.variadic {
                operand.subrange(0, fixed).push(
                    ExprView::List(operand.subrange(fixed, operand.len() as int)),
                )
            } else {
                operand
            };
            Ok(
                (
                    args + voids(proc.local_count),
                    FrameView { closure: callee, stack_offset: lo, up_values: Seq::empty(), pc: 0 },
                ),
            )
        }
    }
}

/// The stack after a frame has gone: its locals, its arguments and its
/// callee are removed.
pub open spec fn leave(operand: Seq<ExprView>, frame: FrameView) -> Seq<ExprView> {
    if frame.stack_offset >= 1 && frame.stack_offset - 1 <= operand.len() {
        operand.subrange(0, frame.stack_offset - 1)
    } else if frame.stack_offset >= 1 {
        operand
    } else {
        Seq::empty()
    }
}

/// Run the machine for at most `fuel` instructions.
pub open spec fn interpret(env: EnvView, vm: VmView, fuel: nat) -> Run
    decreases fuel, 0nat,
{
    if vm.frames.len() == 0 || vm.pending is Some {
        failed(env, RuntimeError::NotSuspended)
    } else if fuel == 0 {
        Run { env, vm, outcome: OutcomeView::Paused }
    } else {
        let parents = vm.frames.drop_last();
        match exec_op(Core { env, operand: vm.operand, frame: vm.frames.last() }) {
            OpResult::Continue(next) => interpret(
                next.env,
                VmView { operand: next.operand, frames: parents.push(next.frame), pending: None },
                (fuel - 1) as nat,
            ),
            OpResult::Fail(failed_env, error) => failed(failed_env, error),
            OpResult::Action(next, action) => applied(parents, next, action, (fuel - 1) as nat),
        }
    }
}

/// Carry out the request that ended a run of instructions, and run on.
pub open spec fn applied(parents: Seq<FrameView>, core: Core, action: ActionView, fuel: nat) -> Run
    decreases fuel, 1nat,
{
    match action {
        ActionView::Call(callee, lo) => match enter(core.env, core.operand, callee, lo) {
            Ok((operand, frame)) => interpret(
                core.env,
                VmView { operand, frames: parents.push(core.frame).push(frame), pending: None },
                fuel,
            ),
            Err(error) => failed(core.env, error),
        },
        ActionView::Return(value) => if parents.len() == 0 {
            Run { env: core.env, vm: VmView::idle(), outcome: OutcomeView::Done(value) }
        } else {
            interpret(
                core.env,
                VmView {
                    operand: leave(core.operand, core.frame).push(value),
                    frames: parents,
                    pending: None,
                },
                fuel,
            )
        },
        ActionView::Native(func, lo) => Run {
            env: core.env,
            vm: VmView {
                operand: core.operand,
                frames: parents.push(core.frame),
                pending: Some(lo),
            },
            outcome: OutcomeView::Native {
                func,
                args: core.operand.subrange(lo as int, core.operand.len() as int),
            },
        },
        ActionView::Yield => Run {
            env: core.env,
            vm: VmView {
                operand: core.operand,
                frames: parents.push(core.frame),
                pending: None,
            },
            outcome: OutcomeView::Paused,
        },
        ActionView::TailCall => failed(core.env, RuntimeError::InvalidBytecode),
    }
}

/// Start a call of `callee` on a machine at rest: push the callee and the
/// arguments, enter the closure, and run.
pub open spec fn started(
    env: EnvView,
    vm: VmView,
    callee: ClosureId,
    args: Seq<ExprView>,
    fuel: nat,
) -> Run {
    if vm.frames.len() > 0 || vm.pending is Some {
        Run { env, vm, outcome: OutcomeView::Failed(ErrorView::Runtime(RuntimeError::AlreadyRunning)) }
    } else {
        let operand = vm.operand.push(ExprView::Closure(callee)) + args;
        match enter(env, operand, callee, vm.operand.len() + 1) {
            Ok((operand, frame)) => interpret(
                env,
                VmView { operand, frames: seq![frame], pending: None },
                fuel,
            ),
            Err(error) => failed(env, error),
        }
    }
}

/// Hand the result of a native call to the machine that waits for it, and
/// run on.
pub open spec fn resumed(env: EnvView, vm: VmView, value: ExprView, fuel: nat) -> Run {
    match vm.pending {
        Some(lo) => if 1 <= lo <= vm.operand.len() && vm.frames.len() > 0 {
            interpret(
                env,
                VmView {
                    operand: vm.operand.subrange(0, lo - 1).push(value),
                    frames: vm.frames,
                    pending: None,
                },
                fuel,
            )
        } else {
            failed(env, RuntimeError::NotSuspended)
        },
        None => Run {
            env,
            vm,
            outcome: OutcomeView::Failed(ErrorView::Runtime(RuntimeError::NotSuspended)),
        },
    }
}

/// An instruction asks the driver for a call, a return or a native call,
/// never for anything else.
pub proof fn lemma_requests(core: Core)
    ensures
        exec_op(core) matches OpResult::Action(_, action) ==> action is Call || action is Return
            || action is Native,
        exec_op(core) matches OpResult::Action(after, ActionView::Call(_, lo)) ==> 1 <= lo
            <= after.operand.len(),
        exec_op(core) matches OpResult::Action(after, ActionView::Native(_, lo)) ==> 1 <= lo
            <= after.operand.len(),
{
}

/// A run of instructions that ends for another reason than the budget has
/// used some of it; one that ends for the budget has used all of it.
pub proof fn lemma_batch_fuel(core: Core, fuel: nat)
    ensures
        instructions(core, fuel).fuel <= fuel,
        instructions(core, fuel).result == Ok::<ActionView, RuntimeError>(ActionView::Yield)
            ==> instructions(core, fuel).fuel == 0,
        instructions(core, fuel).result != Ok::<ActionView, RuntimeError>(ActionView::Yield)
            ==> instructions(core, fuel).fuel < fuel,
        instructions(core, fuel).result matches Ok(action) ==> !(action is TailCall),
        instructions(core, fuel).result matches Ok(ActionView::Native(_, lo)) ==> 1 <= lo
            <= instructions(core, fuel).core.operand.len(),
        instructions(core, fuel).result matches Ok(ActionView::Call(_, lo)) ==> 1 <= lo
            <= instructions(core, fuel).core.operand.len(),
    decreases fuel,
{
    if fuel > 0 {
        lemma_requests(core);
        match exec_op(core) {
            OpResult::Continue(next) => {
                lemma_batch_fuel(next, (fuel - 1) as nat);
            },
            _ => {},
        }
    }
}

/// What follows a run of instructions: the request is carried out, an error
/// ends the run.
pub open spec fn followed(parents: Seq<FrameView>, batch: Batch) -> Run {
    match batch.result {
        Ok(action) => applied(parents, batch.core, action, batch.fuel),
        Err(error) => failed(batch.core.env, error),
    }
}

/// Running the machine is running instructions in the top frame and then
/// doing what they ask for.
pub proof fn lemma_interpret_batch(env: EnvView, vm: VmView, fuel: nat)
    requires
        vm.frames.len() > 0,
        vm.pending is None,
    ensures
        interpret(env, vm, fuel) == followed(
            vm.frames.drop_last(),
            instructions(Core { env, operand: vm.operand, frame: vm.frames.last() }, fuel),
        ),
    decreases fuel,
{
    let parents = vm.frames.drop_last();
    let core = Core { env, operand: vm.operand, frame: vm.frames.last() };
    if fuel == 0 {
        assert(parents.push(core.frame) =~= vm.frames);
    } else {
        match exec_op(core) {
            OpResult::Continue(next) => {
                let vm2 = VmView {
                    operand: next.operand,
                    frames: parents.push(next.frame),
                    pending: None,
                };
                lemma_interpret_batch(next.env, vm2, (fuel - 1) as nat);
                assert(vm2.frames.drop_last() =~= parents);
                assert(vm2.frames.last() == next.frame);
            },
            _ => {},
        }
    }
}

} // verus!
