//! Laws of the engine: what holds of the compiler, the virtual machine and the
//! core library on all inputs.
use vstd::prelude::*;

use crate::codegen;
use crate::codegen::{CompilerView, Unit};
use crate::corelib::{assert_eq_numbers_spec, call_spec, Builtin, ReplyView};
use crate::env::EnvView;
use crate::error::{CompileError, ErrorView, RuntimeError};
use crate::expr::{expr_eq, CellId, ClosureId, ExprView, UpValueView};
use crate::limits::{MAX_JUMP_ADDR, MAX_LOCALS};
use crate::machine::{
    capture, cell_value, close_cells, closed_cell, enter, exec_op, fetch, interpret, resumed,
    started,
    top_or_void, Captured, Core, FrameView, OpResult, VmView,
};
use crate::opcode::{Op, SymbolId};

verus! {

/// A program that is compiled and run again, in an environment equal to the
/// one of the first time, compiles to the same closure and runs to the same
/// outcome; and a run that goes on from equal states with an equal answer
/// of the host goes on alike.
pub proof fn law_rerun(
    first: EnvView,
    second: EnvView,
    program: ExprView,
    machine: VmView,
    answer: ExprView,
    fuel: nat,
)
    requires
        first == second,
    ensures
        codegen::compile(first, program) == codegen::compile(second, program),
        codegen::compile(first, program).1 matches Ok(closure) ==> started(
            codegen::compile(first, program).0,
            VmView::idle(),
            closure,
            Seq::empty(),
            fuel,
        ) == started(
            codegen::compile(second, program).0,
            VmView::idle(),
            closure,
            Seq::empty(),
            fuel,
        ),
        resumed(first, machine, answer, fuel) == resumed(second, machine, answer, fuel),
{
}

/// A call of a closure fails over the number of its arguments exactly if the
/// signature of its procedure does not accept that number.  For a procedure
/// of fixed arity: exactly if the number of arguments is not the arity.
pub proof fn law_arity(env: EnvView, operand: Seq<ExprView>, callee: ClosureId, lo: nat)
    requires
        callee.0 < env.closures.len(),
        env.closures[callee.0 as int].proc.0 < env.procedures.len(),
        lo <= operand.len(),
    ensures
        ({
            let sig = env.procedures[env.closures[callee.0 as int].proc.0 as int].sig;
            let count = (operand.len() - lo) as nat;
            &&& enter(env, operand, callee, lo) == Err::<
                (Seq<ExprView>, FrameView),
                RuntimeError,
            >(RuntimeError::WrongArity) <==> !sig.accepts(count)
            &&& sig.accepts(count) ==> enter(env, operand, callee, lo) is Ok
            &&& !sig.variadic ==> (sig.accepts(count) <==> count == sig.arity)
        }),
{
}

/// A closed cell shows its value, whatever the operand stack holds.
pub proof fn law_closed_value(value: ExprView, first: Seq<ExprView>, second: Seq<ExprView>)
    ensures
        cell_value(UpValueView::Closed(value), first) == Some(value),
        cell_value(UpValueView::Closed(value), first) == cell_value(
            UpValueView::Closed(value),
            second,
        ),
{
}

/// Closing the cells of a frame changes the value of no cell: a cell that
/// was open shows, once it is closed, the value of the local it pointed at.
/// All the cells of the frame end up closed, and no cell is added or lost.
pub proof fn law_close(
    cells: Seq<UpValueView>,
    operand: Seq<ExprView>,
    ids: Seq<CellId>,
    from: nat,
)
    requires
        from <= ids.len(),
    ensures
        ({
            let (after, closed) = close_cells(cells, operand, ids, from);
            &&& after.len() == cells.len()
            &&& forall|i: int|
                0 <= i < cells.len() && cell_value(cells[i], operand) is Some ==> cell_value(
                    #[trigger] after[i],
                    operand,
                ) == cell_value(cells[i], operand)
            &&& closed ==> forall|k: int|
                from <= k < ids.len() ==> ids[k].0 < after.len() && (#[trigger] after[ids[k].0 as int])
                    is Closed
            &&& forall|i: int| 0 <= i < cells.len() && cells[i] is Closed ==> #[trigger] after[i] == cells[i]
        }),
    decreases ids.len() - from,
{
    if from < ids.len() {
        let id = ids[from as int];
        if id.0 < cells.len() {
            match closed_cell(cells[id.0 as int], operand) {
                Some(cell) => {
                    let next = cells.update(id.0 as int, cell);
                    law_close(next, operand, ids, from + 1);
                    let (after, closed) = close_cells(next, operand, ids, from + 1);
                    assert forall|i: int|
                        0 <= i < cells.len() && cell_value(cells[i], operand)
                            is Some implies cell_value(#[trigger] after[i], operand) == cell_value(
                        cells[i],
                        operand,
                    ) by {
                        assert(cell_value(next[i], operand) == cell_value(cells[i], operand));
                    }
                    assert forall|i: int| 0 <= i < cells.len() && cells[i] is Closed implies #[trigger] after[i]
                        == cells[i] by {
                        assert(next[i] == cells[i]);
                    }
                    if closed {
                        assert(next[id.0 as int] is Closed);
                        assert(after[id.0 as int] is Closed);
                    }
                },
                None => {},
            }
        }
    }
}

/// The value that a closure sees through a captured variable is the value
/// that the variable had when its frame returned, also after the frame has
/// gone and whatever the operand stack holds later.
pub proof fn law_captured_value(
    cells: Seq<UpValueView>,
    operand: Seq<ExprView>,
    ids: Seq<CellId>,
    k: int,
    later: Seq<ExprView>,
)
    requires
        0 <= k < ids.len(),
        close_cells(cells, operand, ids, 0).1,
        ids[k].0 < cells.len(),
    ensures
        cell_value(cells[ids[k].0 as int], operand) is Some,
        cell_value(close_cells(cells, operand, ids, 0).0[ids[k].0 as int], later) == cell_value(
            cells[ids[k].0 as int],
            operand,
        ),
{
    law_close(cells, operand, ids, 0);
    lemma_closable(cells, operand, ids, 0, k);
    let after = close_cells(cells, operand, ids, 0).0;
    let i = ids[k].0 as int;
    assert(after[i] is Closed);
    assert(cell_value(after[i], operand) == cell_value(cells[i], operand));
}

/// Cells that could all be closed all showed a value.
proof fn lemma_closable(
    cells: Seq<UpValueView>,
    operand: Seq<ExprView>,
    ids: Seq<CellId>,
    from: nat,
    k: int,
)
    requires
        from <= k < ids.len(),
        close_cells(cells, operand, ids, from).1,
        ids[k].0 < cells.len(),
    ensures
        cell_value(cells[ids[k].0 as int], operand) is Some,
    decreases ids.len() - from,
{
    let id = ids[from as int];
    if from < k {
        let cell = closed_cell(cells[id.0 as int], operand)->0;
        let next = cells.update(id.0 as int, cell);
        lemma_closable(next, operand, ids, from + 1, k);
    }
}

/// What a return does.  It yields the top of the stack, or void from an
/// empty stack, and takes that value off.  Every cell that captured a local
/// of the frame ends up closed and holds the value that its local had just
/// before the return; the stack below the result is not changed by the
/// closing; every other closed cell, and all else in the environment, stays
/// as it is; and the frame keeps no cell.  A return whose frame holds a cell
/// that cannot be closed, because its handle is invalid or it points outside
/// the stack, fails.
pub proof fn law_return(core: Core)
    requires
        fetch(core.env, core.frame) == Some(Op::Return) || fetch(core.env, core.frame) == Some(
            Op::End,
        ),
    ensures
        ({
            let rest = if core.operand.len() > 0 {
                core.operand.drop_last()
            } else {
                core.operand
            };
            let ids = core.frame.up_values;
            let (cells, closed) = close_cells(core.env.cells, rest, ids, 0);
            &&& !closed ==> exec_op(core) == OpResult::Fail(
                EnvView { cells, ..core.env },
                RuntimeError::InvalidBytecode,
            )
            &&& closed ==> {
                &&& exec_op(core) matches OpResult::Action(
                    after,
                    crate::machine::ActionView::Return(result),
                )
                &&& result == top_or_void(core.operand)
                &&& after.operand == rest
                &&& after.frame.up_values == Seq::<CellId>::empty()
                &&& after.frame.closure == core.frame.closure
                &&& after.frame.stack_offset == core.frame.stack_offset
                &&& after.env == (EnvView { cells: after.env.cells, ..core.env })
                &&& after.env.cells.len() == core.env.cells.len()
                &&& forall|k: int|
                    0 <= k < ids.len() ==> ids[k].0 < core.env.cells.len() && cell_value(
                        core.env.cells[ids[k].0 as int],
                        rest,
                    ) is Some && #[trigger] after.env.cells[ids[k].0 as int]
                        == UpValueView::Closed(
                        cell_value(core.env.cells[ids[k].0 as int], rest)->0,
                    )
                &&& forall|i: int|
                    0 <= i < core.env.cells.len() && core.env.cells[i] is Closed
                        ==> #[trigger] after.env.cells[i] == core.env.cells[i]
            }
        }),
{
    let rest = if core.operand.len() > 0 {
        core.operand.drop_last()
    } else {
        core.operand
    };
    let ids = core.frame.up_values;
    let (cells, closed) = close_cells(core.env.cells, rest, ids, 0);
    law_close(core.env.cells, rest, ids, 0);
    if closed {
        assert forall|k: int| 0 <= k < ids.len() implies ids[k].0 < core.env.cells.len()
            && cell_value(core.env.cells[ids[k].0 as int], rest) is Some && #[trigger] cells[ids[k].0 as int]
            == UpValueView::Closed(cell_value(core.env.cells[ids[k].0 as int], rest)->0) by {
            lemma_closable(core.env.cells, rest, ids, 0, k);
            let i = ids[k].0 as int;
            assert(cells[i] is Closed);
            assert(cell_value(cells[i], rest) == cell_value(core.env.cells[i], rest));
        }
    }
}

/// A closure that captures a local of the frame that makes it, and is then
/// returned from that frame, sees the value that the local had at that
/// time in every later call: whatever the arguments of the call and
/// whatever the stack holds by then, the load of the captured variable
/// pushes that value.
///
/// `core` is the state before the closure is made, by a `CreateClosure` with
/// one capture of the local that is followed by the return; `later` is any
/// state in which the closure runs and loads what it captured, with the cell
/// as the return left it.
pub proof fn law_captured_parameter(
    core: Core,
    proc: crate::opcode::ProcId,
    local: crate::opcode::LocalId,
    later: Core,
)
    requires
        runs(
            core.env,
            core.frame,
            seq![
                Op::CreateClosure(proc),
                Op::CaptureValue(crate::opcode::UpValueOrigin::Parent(local)),
                Op::Return,
            ],
        ),
        proc.0 < core.env.procedures.len(),
        core.env.procedures[proc.0 as int].up_value_count == 1,
        core.frame.up_values.len() == 0,
        core.frame.stack_offset + local.0 < core.operand.len(),
        core.operand.len() <= usize::MAX,
        core.env.cells.len() <= usize::MAX,
        core.env.closures.len() <= usize::MAX,
        later.frame.closure == ClosureId(core.env.closures.len() as usize),
        later.env.closures.len() > core.env.closures.len(),
        later.env.closures[core.env.closures.len() as int] == (crate::expr::ClosureView {
            proc,
            up_values: seq![CellId(core.env.cells.len() as usize)],
        }),
        later.env.cells.len() > core.env.cells.len(),
        later.env.cells[core.env.cells.len() as int] == UpValueView::Closed(
            core.operand[core.frame.stack_offset + local.0],
        ),
        fetch(later.env, later.frame) == Some(Op::LoadUpValue(crate::opcode::UpValueId(0))),
    ensures
        ({
            let captured = core.operand[core.frame.stack_offset + local.0];
            let closure = ClosureId(core.env.closures.len() as usize);
            let cell = CellId(core.env.cells.len() as usize);
            let closures = core.env.closures.push(
                crate::expr::ClosureView { proc, up_values: seq![cell] },
            );
            let made = Core {
                env: EnvView {
                    cells: core.env.cells.push(
                        UpValueView::Open((core.frame.stack_offset + local.0) as nat),
                    ),
                    closures,
                    ..core.env
                },
                operand: core.operand.push(ExprView::Closure(closure)),
                frame: FrameView {
                    up_values: seq![cell],
                    pc: core.frame.pc + 2,
                    ..core.frame
                },
            };
            let returned = Core {
                env: EnvView {
                    cells: core.env.cells.push(UpValueView::Closed(captured)),
                    closures,
                    ..core.env
                },
                operand: core.operand,
                frame: FrameView {
                    up_values: Seq::empty(),
                    pc: core.frame.pc + 3,
                    ..core.frame
                },
            };
            &&& exec_op(core) == OpResult::Continue(made)
            &&& exec_op(made) == OpResult::Action(
                returned,
                crate::machine::ActionView::Return(ExprView::Closure(closure)),
            )
            &&& exec_op(later) == OpResult::Continue(
                Core {
                    operand: later.operand.push(captured),
                    frame: FrameView { pc: later.frame.pc + 1, ..later.frame },
                    ..later
                },
            )
        }),
{
    let code = seq![
        Op::CreateClosure(proc),
        Op::CaptureValue(crate::opcode::UpValueOrigin::Parent(local)),
        Op::Return,
    ];
    let code_of = crate::machine::running_proc(core.env, core.frame)->0.code;
    assert(code_of[core.frame.pc + 0int] == code[0]);
    assert(code_of[core.frame.pc + 1int] == code[1]);
    assert(code_of[core.frame.pc + 2int] == code[2]);
    let pos = (core.frame.stack_offset + local.0) as nat;
    let captured = core.operand[pos as int];
    let closure = ClosureId(core.env.closures.len() as usize);
    let cell = CellId(core.env.cells.len() as usize);
    // The closure is made: its cell is open and points at the local.
    let stepped = Core { frame: FrameView { pc: core.frame.pc + 1, ..core.frame }, ..core };
    let opened = Core {
        env: EnvView { cells: core.env.cells.push(UpValueView::Open(pos)), ..core.env },
        operand: core.operand,
        frame: FrameView {
            up_values: core.frame.up_values.push(cell),
            pc: core.frame.pc + 2,
            ..core.frame
        },
    };
    assert(crate::machine::running_proc(stepped.env, stepped.frame)
        == crate::machine::running_proc(core.env, core.frame));
    assert(capture(opened, 0, seq![cell]) == Captured::Cells(opened, seq![cell]));
    assert(Seq::<CellId>::empty().push(cell) =~= seq![cell]);
    assert(capture(stepped, 1, Seq::empty()) == Captured::Cells(opened, seq![cell]));
    let made = Core {
        env: EnvView {
            closures: opened.env.closures.push(
                crate::expr::ClosureView { proc, up_values: seq![cell] },
            ),
            ..opened.env
        },
        operand: opened.operand.push(ExprView::Closure(closure)),
        frame: opened.frame,
    };
    assert(opened.frame.up_values =~= seq![cell]);
    assert(exec_op(core) == OpResult::Continue(made));
    // The frame returns: the cell is closed over the value of the local.
    assert(crate::machine::running_proc(made.env, made.frame)
        == crate::machine::running_proc(core.env, core.frame));
    let rest = made.operand.drop_last();
    assert(rest =~= core.operand);
    assert(made.frame.up_values =~= seq![cell]);
    let cells = made.env.cells.update(cell.0 as int, UpValueView::Closed(captured));
    assert(close_cells(cells, rest, made.frame.up_values, 1) == (cells, true));
    assert(close_cells(made.env.cells, rest, made.frame.up_values, 0) == (cells, true));
    assert(cells =~= core.env.cells.push(UpValueView::Closed(captured)));
}

/// The expression `(lambda (outer) (lambda (inner) outer))`: a procedure
/// that makes procedures which give back what the first was called with.
pub open spec fn constant_maker(outer: Seq<char>, inner: Seq<char>) -> ExprView {
    ExprView::List(
        seq![
            ExprView::Ident("lambda"@),
            ExprView::List(seq![ExprView::Ident(outer)]),
            ExprView::List(
                seq![
                    ExprView::Ident("lambda"@),
                    ExprView::List(seq![ExprView::Ident(inner)]),
                    ExprView::Ident(outer),
                ],
            ),
        ],
    )
}

/// The prototype of a procedure of one parameter that gives back its first
/// captured variable.
pub open spec fn reader_proto() -> crate::expr::ProcView {
    crate::expr::ProcView {
        code: seq![Op::LoadUpValue(crate::opcode::UpValueId(0)), Op::Return],
        sig: crate::expr::Signature { arity: 1, variadic: false },
        constants: Seq::empty(),
        local_count: 1,
        up_value_count: 1,
    }
}

/// The prototype of a procedure of one parameter that makes a closure of
/// `reader` which captures the parameter, and returns it.
pub open spec fn maker_proto(reader: crate::opcode::ProcId) -> crate::expr::ProcView {
    crate::expr::ProcView {
        code: seq![
            Op::CreateClosure(reader),
            Op::CaptureValue(crate::opcode::UpValueOrigin::Parent(crate::opcode::LocalId(0))),
            Op::Return,
        ],
        sig: crate::expr::Signature { arity: 1, variadic: false },
        constants: Seq::empty(),
        local_count: 1,
        up_value_count: 0,
    }
}

/// The state on entry to a procedure whose one parameter is `name`.
spec fn entered_with(unit: Unit, name: Seq<char>) -> Unit {
    Unit {
        env: unit.env,
        c: CompilerView {
            proc: codegen::ProcStateView {
                arity: 1,
                local_count: 1,
                ..codegen::ProcStateView::empty()
            },
            proc_stack: unit.c.proc_stack.push(unit.c.proc),
            context: unit.c.context,
            depth: unit.c.depth + 1,
            locals: unit.c.locals.push(
                codegen::LocalView {
                    id: crate::opcode::LocalId(0),
                    name,
                    depth: unit.c.depth + 1,
                },
            ),
            stack_offset: unit.c.locals.len(),
        },
    }
}

proof fn lemma_enter_with(unit: Unit, name: Seq<char>)
    requires
        forall|i: int| 0 <= i < unit.c.locals.len() ==> (#[trigger] unit.c.locals[i]).depth <= unit.c.depth,
    ensures
        codegen::lambda_enter(unit, ExprView::List(seq![ExprView::Ident(name)]), 0) == Ok::<
            Unit,
            ErrorView,
        >(entered_with(unit, name)),
{
    reveal(codegen::lambda_enter);
    reveal(codegen::declare_formals);
    reveal_with_fuel(codegen::declare_params, 2);
    reveal(codegen::declare_local);
    reveal(codegen::declared);
    let opened = codegen::open_scope(unit.c);
    let local = codegen::LocalView {
        id: crate::opcode::LocalId(0),
        name,
        depth: unit.c.depth + 1,
    };
    let declared = CompilerView {
        locals: opened.locals.push(local),
        proc: codegen::ProcStateView { local_count: 1, ..opened.proc },
        ..opened
    };
    assert(!codegen::declared(opened.locals, name, opened.depth, opened.locals.len()));
    assert(codegen::declare_local(opened, name) == Ok::<
        (CompilerView, crate::opcode::LocalId),
        CompileError,
    >((declared, crate::opcode::LocalId(0))));
    let params = seq![ExprView::Ident(name)];
    let counted = CompilerView {
        proc: codegen::ProcStateView { arity: 1, ..declared.proc },
        ..declared
    };
    assert(codegen::declare_params(counted, params, 1) == Ok::<
        CompilerView,
        (CompileError, Seq<char>),
    >(counted));
    assert(codegen::declare_params(opened, params, 0) == Ok::<
        CompilerView,
        (CompileError, Seq<char>),
    >(counted));
    assert(counted == entered_with(unit, name).c);
}

proof fn lemma_lambda_head(list: Seq<ExprView>)
    requires
        list.len() > 0,
        list[0] == ExprView::Ident("lambda"@),
    ensures
        codegen::special_of(list) == Some(codegen::Special::Lambda),
        !codegen::headed_by(ExprView::List(list), "define"@),
        !codegen::headed_by(ExprView::List(list), "define-syntax"@),
{
    reveal(codegen::special_form);
    reveal(codegen::headed_by);
    reveal_strlit("lambda");
    reveal_strlit("define");
    reveal_strlit("define-syntax");
    assert("lambda"@[0] != "define"@[0]);
    assert("lambda"@.len() != "define-syntax"@.len());
}

/// The state after a procedure at its start has referred to the last
/// local but one, which its parent declared.
spec fn captured_with(reading: Unit) -> Unit {
    codegen::emitted(
        Unit {
            c: CompilerView {
                proc: codegen::ProcStateView {
                    up_values: seq![
                        crate::opcode::UpValueOrigin::Parent(
                            reading.c.locals[reading.c.locals.len() - 2].id,
                        ),
                    ],
                    ..reading.c.proc
                },
                ..reading.c
            },
            ..reading
        },
        Op::LoadUpValue(crate::opcode::UpValueId(0)),
    )
}

proof fn lemma_access_captured(reading: Unit, name: Seq<char>)
    requires
        reading.c.locals.len() >= 2,
        reading.c.locals[reading.c.locals.len() - 1].name != name,
        reading.c.locals[reading.c.locals.len() - 2].name == name,
        reading.c.locals[reading.c.locals.len() - 2].depth + 1 == reading.c.depth,
        reading.c.proc_stack.len() == reading.c.depth,
        reading.c.proc.up_values.len() == 0,
    ensures
        codegen::compile_access(reading, name) == codegen::done(captured_with(reading)),
{
    reveal(codegen::compile_access);
    reveal(codegen::resolve);
    reveal_with_fuel(codegen::local_position, 3);
    reveal(codegen::capture_chain);
    reveal(codegen::add_up_value);
    reveal(codegen::origin_position);
    let c = reading.c;
    let origin = crate::opcode::UpValueOrigin::Parent(c.locals[c.locals.len() - 2].id);
    assert(codegen::local_position(c.locals, name, c.locals.len()) == Some(
        (c.locals.len() - 2) as nat,
    ));
    assert(c.proc.up_values.push(origin) =~= seq![origin]);
}

/// The state after a procedure that was compiled in `inner` has been
/// added to the environment and `outer`, the state it was entered from, has
/// got the instruction that makes a closure of it.
spec fn exited_with(outer: Unit, inner: Unit) -> Unit {
    Unit {
        env: EnvView {
            procedures: inner.env.procedures.push(inner.c.emit(Op::Return).proc.finish()),
            ..inner.env
        },
        c: codegen::emit_captures(
            outer.c.emit(
                Op::CreateClosure(crate::opcode::ProcId(inner.env.procedures.len() as u16)),
            ),
            inner.c.proc.up_values,
            0,
        ),
    }
}

proof fn lemma_exit_with(outer: Unit, inner: Unit)
    requires
        inner.env.procedures.len() < crate::limits::MAX_TABLE,
        inner.c.proc_stack == outer.c.proc_stack.push(outer.c.proc),
        inner.c.depth == outer.c.depth + 1,
        inner.c.locals.len() >= outer.c.locals.len(),
        inner.c.locals.subrange(0, outer.c.locals.len() as int) == outer.c.locals,
    ensures
        codegen::lambda_exit(codegen::scope_of(outer.c), inner) == codegen::done(
            exited_with(outer, inner),
        ),
{
    reveal(codegen::lambda_exit);
    let finished = inner.c.emit(Op::Return);
    let closed = codegen::close_scope(finished, codegen::scope_of(outer.c));
    assert(closed.proc_stack =~= outer.c.proc_stack);
    assert(closed == outer.c);
}

/// The expression `(lambda (parameter) body)`.
spec fn one_parameter(parameter: Seq<char>, body: ExprView) -> ExprView {
    ExprView::List(
        seq![ExprView::Ident("lambda"@), ExprView::List(seq![ExprView::Ident(parameter)]), body],
    )
}

/// The state in which the body of a procedure of one parameter is compiled.
spec fn body_of(unit: Unit, parameter: Seq<char>) -> Unit {
    codegen::in_context(entered_with(unit, parameter), codegen::Context::BodyRest)
}

/// A procedure of one parameter whose body is one expression, which is no
/// definition: the code of the procedure is the code of the body.
proof fn lemma_one_parameter(unit: Unit, parameter: Seq<char>, body: ExprView, compiled: Unit)
    requires
        forall|i: int| 0 <= i < unit.c.locals.len() ==> (#[trigger] unit.c.locals[i]).depth <= unit.c.depth,
        !codegen::headed_by(body, "define"@),
        !codegen::headed_by(body, "define-syntax"@),
        codegen::compile_expr(body_of(unit, parameter), body) == codegen::done(compiled),
        compiled.env.procedures.len() < crate::limits::MAX_TABLE,
        compiled.c.proc_stack == unit.c.proc_stack.push(unit.c.proc),
        compiled.c.depth == unit.c.depth + 1,
        compiled.c.locals.len() >= unit.c.locals.len(),
        compiled.c.locals.subrange(0, unit.c.locals.len() as int) == unit.c.locals,
    ensures
        codegen::compile_expr(unit, one_parameter(parameter, body)) == codegen::done(
            exited_with(unit, compiled),
        ),
{
    let list = one_parameter(parameter, body)->List_0;
    lemma_lambda_head(list);
    lemma_enter_with(unit, parameter);
    let entered = entered_with(unit, parameter);
    let outset = codegen::in_context(entered, codegen::Context::BodyStart);
    assert(list[2] == body);
    assert(codegen::compile_defines(outset, list, 2) == (codegen::done(outset), 2nat));
    assert(codegen::in_context(outset, codegen::Context::BodyRest) == body_of(unit, parameter));
    assert(codegen::compile_sequence(body_of(unit, parameter), list, 2) == codegen::done(
        compiled,
    ));
    let returned = codegen::in_context(compiled, unit.c.context);
    assert(codegen::compile_body(entered, list, 2) == codegen::done(returned));
    lemma_exit_with(unit, returned);
    assert(exited_with(unit, returned) == exited_with(unit, compiled));
    assert(codegen::compile_lambda(unit, list[1], 0, list, 2) == codegen::done(
        exited_with(unit, compiled),
    ));
    assert(codegen::compile_lambda_form(unit, list) == codegen::done(exited_with(unit, compiled)));
    assert(codegen::compile_form(unit, list) == codegen::done(exited_with(unit, compiled)));
}

/// After the inner procedure: the outer one has the closure made.
proof fn lemma_reader_made(unit: Unit, outer: Seq<char>, inner: Seq<char>)
    requires
        unit.c.wf(),
        outer != inner,
        unit.env.procedures.len() + 2 <= crate::limits::MAX_TABLE,
    ensures
        ({
            let body = body_of(unit, outer);
            codegen::compile_expr(body, one_parameter(inner, ExprView::Ident(outer)))
                == codegen::done(
                Unit {
                    env: EnvView {
                        procedures: unit.env.procedures.push(reader_proto()),
                        ..unit.env
                    },
                    c: body.c.emit(
                        Op::CreateClosure(
                            crate::opcode::ProcId(unit.env.procedures.len() as u16),
                        ),
                    ).emit(
                        Op::CaptureValue(
                            crate::opcode::UpValueOrigin::Parent(crate::opcode::LocalId(0)),
                        ),
                    ),
                },
            )
        }),
{
    let origin = crate::opcode::UpValueOrigin::Parent(crate::opcode::LocalId(0));
    let body = body_of(unit, outer);
    let reading = body_of(body, inner);
    lemma_access_captured(reading, outer);
    let loaded = captured_with(reading);
    assert(codegen::compile_expr(reading, ExprView::Ident(outer)) == codegen::done(loaded));
    assert(loaded.c.locals.subrange(0, body.c.locals.len() as int) =~= body.c.locals);
    assert(!codegen::headed_by(ExprView::Ident(outer), "define"@)
        && !codegen::headed_by(ExprView::Ident(outer), "define-syntax"@)) by {
        reveal(codegen::headed_by);
    }
    lemma_one_parameter(body, inner, ExprView::Ident(outer), loaded);
    reveal_with_fuel(codegen::emit_captures, 2);
    assert(loaded.c.emit(Op::Return).proc.code =~= reader_proto().code);
    assert(loaded.c.proc.up_values =~= seq![origin]);
}

/// The code of a procedure whose parameter an inner procedure refers to:
/// the inner procedure loads its first captured variable; the outer one
/// makes the closure, captures its own first local, the parameter, and
/// returns; in place of the expression stands the instruction that makes a
/// closure of the outer procedure.  These are the instructions of which
/// [`law_captured_parameter`] speaks.
pub proof fn law_capture_code(unit: Unit, outer: Seq<char>, inner: Seq<char>)
    requires
        unit.c.wf(),
        outer != inner,
        unit.env.procedures.len() + 2 <= crate::limits::MAX_TABLE,
    ensures
        ({
            let first = crate::opcode::ProcId(unit.env.procedures.len() as u16);
            let second = crate::opcode::ProcId((unit.env.procedures.len() + 1) as u16);
            codegen::compile_expr(unit, constant_maker(outer, inner)) == codegen::done(
                Unit {
                    env: EnvView {
                        procedures: unit.env.procedures.push(reader_proto()).push(
                            maker_proto(first),
                        ),
                        ..unit.env
                    },
                    c: unit.c.emit(Op::CreateClosure(second)),
                },
            )
        }),
{
    let first = crate::opcode::ProcId(unit.env.procedures.len() as u16);
    let origin = crate::opcode::UpValueOrigin::Parent(crate::opcode::LocalId(0));
    let nested = one_parameter(inner, ExprView::Ident(outer));
    let body = body_of(unit, outer);
    let made = Unit {
        env: EnvView { procedures: unit.env.procedures.push(reader_proto()), ..unit.env },
        c: body.c.emit(Op::CreateClosure(first)).emit(Op::CaptureValue(origin)),
    };
    lemma_reader_made(unit, outer, inner);
    lemma_lambda_head(nested->List_0);
    assert(made.c.locals.subrange(0, unit.c.locals.len() as int) =~= unit.c.locals);
    lemma_one_parameter(unit, outer, nested, made);
    assert(constant_maker(outer, inner) == one_parameter(outer, nested));
    reveal(codegen::emit_captures);
    assert(made.c.emit(Op::Return).proc.code =~= maker_proto(first).code);
}

/// A closure of the procedure that gives back its captured variable,
/// called with one argument after the frame that made it has gone: whatever
/// the argument, the call returns the value over which the variable was
/// closed.  The call leaves the environment as it found it, so every later
/// call returns that value too.
pub proof fn law_call_reader(
    env: EnvView,
    callee: ClosureId,
    cell: CellId,
    captured: ExprView,
    argument: ExprView,
    fuel: nat,
)
    requires
        callee.0 < env.closures.len(),
        env.closures[callee.0 as int].up_values == seq![cell],
        env.closures[callee.0 as int].proc.0 < env.procedures.len(),
        env.procedures[env.closures[callee.0 as int].proc.0 as int] == reader_proto(),
        cell.0 < env.cells.len(),
        env.cells[cell.0 as int] == UpValueView::Closed(captured),
        fuel >= 2,
    ensures
        started(env, VmView::idle(), callee, seq![argument], fuel) == (crate::machine::Run {
            env,
            vm: VmView::idle(),
            outcome: crate::machine::OutcomeView::Done(captured),
        }),
{
    let called = Seq::<ExprView>::empty().push(ExprView::Closure(callee)) + seq![argument];
    let operand = called + crate::machine::voids(1);
    let frame = FrameView { closure: callee, stack_offset: 1, up_values: Seq::empty(), pc: 0 };
    assert(called.len() == 2);
    assert(enter(env, called, callee, 1) == Ok::<(Seq<ExprView>, FrameView), RuntimeError>(
        (operand, frame),
    ));
    let vm = VmView { operand, frames: seq![frame], pending: None };
    assert(started(env, VmView::idle(), callee, seq![argument], fuel) == interpret(env, vm, fuel));
    let proc = crate::machine::running_proc(env, frame)->0;
    assert(proc == reader_proto());
    assert(vm.frames.last() == frame);
    assert(vm.frames.drop_last() =~= Seq::<FrameView>::empty());
    // The captured variable is loaded.
    let loading = FrameView { pc: 1, ..frame };
    assert(fetch(env, frame) == Some(Op::LoadUpValue(crate::opcode::UpValueId(0))));
    assert(exec_op(Core { env, operand, frame }) == OpResult::Continue(
        Core { env, operand: operand.push(captured), frame: loading },
    ));
    let loaded = VmView { operand: operand.push(captured), frames: seq![loading], pending: None };
    assert(vm.frames.drop_last().push(loading) =~= seq![loading]);
    assert(interpret(env, vm, fuel) == interpret(env, loaded, (fuel - 1) as nat));
    // The procedure returns it.
    assert(loaded.frames.last() == loading);
    assert(loaded.frames.drop_last() =~= Seq::<FrameView>::empty());
    assert(fetch(env, loading) == Some(Op::Return));
    assert(operand.push(captured).drop_last() =~= operand);
    assert(close_cells(env.cells, operand, loading.up_values, 0) == (env.cells, true));
    let left = Core {
        env: EnvView { cells: env.cells, ..env },
        operand,
        frame: FrameView { up_values: Seq::empty(), pc: 2, ..frame },
    };
    assert(exec_op(Core { env, operand: operand.push(captured), frame: loading })
        == OpResult::Action(left, crate::machine::ActionView::Return(captured)));
    assert(left.env == env);
    assert(crate::machine::applied(
        Seq::empty(),
        left,
        crate::machine::ActionView::Return(captured),
        (fuel - 2) as nat,
    ) == (crate::machine::Run {
        env,
        vm: VmView::idle(),
        outcome: crate::machine::OutcomeView::Done(captured),
    }));
}

/// The environment after a closure of `reader` has been made that
/// captured `value`, with its variable closed.
pub open spec fn with_reader(env: EnvView, reader: crate::opcode::ProcId, value: ExprView) -> EnvView {
    EnvView {
        cells: env.cells.push(UpValueView::Closed(value)),
        closures: env.closures.push(
            crate::expr::ClosureView {
                proc: reader,
                up_values: seq![CellId(env.cells.len() as usize)],
            },
        ),
        ..env
    }
}

/// A closure of the procedure that makes closures over its parameter,
/// called with a value: the call returns a new closure whose one variable is
/// closed over that value, the frame of the call being gone.
pub proof fn law_call_maker(
    env: EnvView,
    callee: ClosureId,
    reader: crate::opcode::ProcId,
    value: ExprView,
    fuel: nat,
)
    requires
        callee.0 < env.closures.len(),
        env.closures[callee.0 as int].proc.0 < env.procedures.len(),
        env.procedures[env.closures[callee.0 as int].proc.0 as int] == maker_proto(reader),
        reader.0 < env.procedures.len(),
        env.procedures[reader.0 as int] == reader_proto(),
        env.cells.len() < usize::MAX,
        env.closures.len() < usize::MAX,
        fuel >= 2,
    ensures
        started(env, VmView::idle(), callee, seq![value], fuel) == (crate::machine::Run {
            env: with_reader(env, reader, value),
            vm: VmView::idle(),
            outcome: crate::machine::OutcomeView::Done(
                ExprView::Closure(ClosureId(env.closures.len() as usize)),
            ),
        }),
{
    let local = crate::opcode::LocalId(0);
    let called = Seq::<ExprView>::empty().push(ExprView::Closure(callee)) + seq![value];
    let operand = called + crate::machine::voids(1);
    let frame = FrameView { closure: callee, stack_offset: 1, up_values: Seq::empty(), pc: 0 };
    assert(called.len() == 2);
    assert(enter(env, called, callee, 1) == Ok::<(Seq<ExprView>, FrameView), RuntimeError>(
        (operand, frame),
    ));
    let vm = VmView { operand, frames: seq![frame], pending: None };
    assert(started(env, VmView::idle(), callee, seq![value], fuel) == interpret(env, vm, fuel));
    let core = Core { env, operand, frame };
    let made_env = with_reader(env, reader, value);
    let closure = ClosureId(env.closures.len() as usize);
    // Some state in which the new closure runs: the law below asks for one.
    let later = Core {
        env: made_env,
        operand,
        frame: FrameView { closure, stack_offset: 1, up_values: Seq::empty(), pc: 0 },
    };
    assert(operand[1] == value);
    assert(crate::machine::running_proc(env, frame) == Some(maker_proto(reader)));
    assert(crate::machine::running_proc(later.env, later.frame) == Some(reader_proto()));
    law_captured_parameter(core, reader, local, later);
    let cell = CellId(env.cells.len() as usize);
    let closures = env.closures.push(crate::expr::ClosureView { proc: reader, up_values: seq![cell] });
    let made = Core {
        env: EnvView {
            cells: env.cells.push(UpValueView::Open(1)),
            closures,
            ..env
        },
        operand: operand.push(ExprView::Closure(closure)),
        frame: FrameView { up_values: seq![cell], pc: 2, ..frame },
    };
    let returned = Core {
        env: made_env,
        operand,
        frame: FrameView { up_values: Seq::empty(), pc: 3, ..frame },
    };
    assert(exec_op(core) == OpResult::Continue(made));
    assert(exec_op(made) == OpResult::Action(
        returned,
        crate::machine::ActionView::Return(ExprView::Closure(closure)),
    ));
    assert(vm.frames.last() == frame);
    assert(vm.frames.drop_last() =~= Seq::<FrameView>::empty());
    let making = VmView { operand: made.operand, frames: seq![made.frame], pending: None };
    assert(vm.frames.drop_last().push(made.frame) =~= seq![made.frame]);
    assert(interpret(env, vm, fuel) == interpret(made.env, making, (fuel - 1) as nat));
    assert(making.frames.last() == made.frame);
    assert(making.frames.drop_last() =~= Seq::<FrameView>::empty());
    assert(crate::machine::applied(
        Seq::empty(),
        returned,
        crate::machine::ActionView::Return(ExprView::Closure(closure)),
        (fuel - 2) as nat,
    ) == (crate::machine::Run {
        env: made_env,
        vm: VmView::idle(),
        outcome: crate::machine::OutcomeView::Done(ExprView::Closure(closure)),
    }));
}

/// A parameter that an inner procedure refers to keeps, in the closure of
/// the inner procedure, the value it had when the closure was made: the
/// outer procedure called with `value` returns a closure, and that closure,
/// called with whatever argument, and however often, returns `value`,
/// though the frame that held the parameter is gone.
pub proof fn law_captured_parameter_outlives(
    env: EnvView,
    callee: ClosureId,
    reader: crate::opcode::ProcId,
    value: ExprView,
    first: ExprView,
    second: ExprView,
    fuel: nat,
)
    requires
        callee.0 < env.closures.len(),
        env.closures[callee.0 as int].proc.0 < env.procedures.len(),
        env.procedures[env.closures[callee.0 as int].proc.0 as int] == maker_proto(reader),
        reader.0 < env.procedures.len(),
        env.procedures[reader.0 as int] == reader_proto(),
        env.cells.len() < usize::MAX,
        env.closures.len() < usize::MAX,
        fuel >= 2,
    ensures
        ({
            let made = started(env, VmView::idle(), callee, seq![value], fuel);
            let closure = ClosureId(env.closures.len() as usize);
            let once = started(made.env, made.vm, closure, seq![first], fuel);
            let twice = started(once.env, once.vm, closure, seq![second], fuel);
            &&& made.outcome == crate::machine::OutcomeView::Done(ExprView::Closure(closure))
            &&& once.outcome == crate::machine::OutcomeView::Done(value)
            &&& twice.outcome == crate::machine::OutcomeView::Done(value)
        }),
{
    law_call_maker(env, callee, reader, value, fuel);
    let made = with_reader(env, reader, value);
    let closure = ClosureId(env.closures.len() as usize);
    let cell = CellId(env.cells.len() as usize);
    law_call_reader(made, closure, cell, value, first, fuel);
    law_call_reader(made, closure, cell, value, second, fuel);
}

/// A program that is one instruction making a closure of a procedure
/// that captures nothing: the run gives that closure.
proof fn lemma_closure_program(
    env: EnvView,
    program: ClosureId,
    proc: crate::opcode::ProcId,
    fuel: nat,
)
    requires
        program.0 < env.closures.len(),
        env.closures[program.0 as int].proc.0 < env.procedures.len(),
        env.procedures[env.closures[program.0 as int].proc.0 as int] == (crate::expr::ProcView {
            code: seq![Op::CreateClosure(proc), Op::End],
            sig: crate::expr::Signature { arity: 0, variadic: false },
            constants: Seq::empty(),
            local_count: 0,
            up_value_count: 0,
        }),
        proc.0 < env.procedures.len(),
        env.procedures[proc.0 as int].up_value_count == 0,
        env.closures.len() < usize::MAX,
        fuel >= 2,
    ensures
        started(env, VmView::idle(), program, Seq::empty(), fuel) == (crate::machine::Run {
            env: EnvView {
                closures: env.closures.push(
                    crate::expr::ClosureView { proc, up_values: Seq::empty() },
                ),
                ..env
            },
            vm: VmView::idle(),
            outcome: crate::machine::OutcomeView::Done(
                ExprView::Closure(ClosureId(env.closures.len() as usize)),
            ),
        }),
{
    let called = Seq::<ExprView>::empty().push(ExprView::Closure(program)) + Seq::<
        ExprView,
    >::empty();
    let operand = called + crate::machine::voids(0);
    let frame = FrameView { closure: program, stack_offset: 1, up_values: Seq::empty(), pc: 0 };
    assert(called.len() == 1);
    assert(enter(env, called, program, 1) == Ok::<(Seq<ExprView>, FrameView), RuntimeError>(
        (operand, frame),
    ));
    let vm = VmView { operand, frames: seq![frame], pending: None };
    assert(started(env, VmView::idle(), program, Seq::empty(), fuel) == interpret(env, vm, fuel));
    assert(vm.frames.last() == frame);
    assert(vm.frames.drop_last() =~= Seq::<FrameView>::empty());
    // The closure is made.
    let closure = ClosureId(env.closures.len() as usize);
    let made_env = EnvView {
        closures: env.closures.push(crate::expr::ClosureView { proc, up_values: Seq::empty() }),
        ..env
    };
    let making = FrameView { pc: 1, ..frame };
    assert(fetch(env, frame) == Some(Op::CreateClosure(proc)));
    let stepped = Core { env, operand, frame: making };
    assert(capture(stepped, 0, Seq::empty()) == Captured::Cells(stepped, Seq::empty()));
    assert(exec_op(Core { env, operand, frame }) == OpResult::Continue(
        Core { env: made_env, operand: operand.push(ExprView::Closure(closure)), frame: making },
    ));
    let made = VmView {
        operand: operand.push(ExprView::Closure(closure)),
        frames: seq![making],
        pending: None,
    };
    assert(vm.frames.drop_last().push(making) =~= seq![making]);
    assert(interpret(env, vm, fuel) == interpret(made_env, made, (fuel - 1) as nat));
    // The program ends with it.
    assert(made.frames.last() == making);
    assert(made.frames.drop_last() =~= Seq::<FrameView>::empty());
    assert(fetch(made_env, making) == Some(Op::End));
    assert(operand.push(ExprView::Closure(closure)).drop_last() =~= operand);
    assert(close_cells(made_env.cells, operand, making.up_values, 0) == (made_env.cells, true));
    let left = Core {
        env: EnvView { cells: made_env.cells, ..made_env },
        operand,
        frame: FrameView { up_values: Seq::empty(), pc: 2, ..frame },
    };
    assert(exec_op(
        Core { env: made_env, operand: operand.push(ExprView::Closure(closure)), frame: making },
    ) == OpResult::Action(left, crate::machine::ActionView::Return(ExprView::Closure(closure))));
    assert(left.env == made_env);
    assert(crate::machine::applied(
        Seq::empty(),
        left,
        crate::machine::ActionView::Return(ExprView::Closure(closure)),
        (fuel - 2) as nat,
    ) == (crate::machine::Run {
        env: made_env,
        vm: VmView::idle(),
        outcome: crate::machine::OutcomeView::Done(ExprView::Closure(closure)),
    }));
}

/// From a program to the calls of its closures: the program
/// `(lambda (outer) (lambda (inner) outer))` compiles; its run gives a
/// closure; that closure called with `value` gives a closure in turn; and
/// this one, called with whatever argument, and however often, returns
/// `value`: what the inner procedure captured is the value that the
/// parameter had when the closure was made, though the frame that held it is
/// gone.
pub proof fn law_capture_from_compile(
    env: EnvView,
    outer: Seq<char>,
    inner: Seq<char>,
    value: ExprView,
    first: ExprView,
    second: ExprView,
    fuel: nat,
)
    requires
        outer != inner,
        env.procedures.len() + 3 <= crate::limits::MAX_TABLE,
        env.closures.len() + 2 < usize::MAX,
        env.cells.len() < usize::MAX,
        fuel >= 2,
    ensures
        ({
            let (compiled, program) = codegen::compile(env, constant_maker(outer, inner));
            let maker = ClosureId((env.closures.len() + 1) as usize);
            let closure = ClosureId((env.closures.len() + 2) as usize);
            let run = started(compiled, VmView::idle(), program->Ok_0, Seq::empty(), fuel);
            let made = started(run.env, run.vm, maker, seq![value], fuel);
            let once = started(made.env, made.vm, closure, seq![first], fuel);
            let twice = started(once.env, once.vm, closure, seq![second], fuel);
            &&& program == Ok::<ClosureId, ErrorView>(ClosureId(env.closures.len() as usize))
            &&& run.outcome == crate::machine::OutcomeView::Done(ExprView::Closure(maker))
            &&& made.outcome == crate::machine::OutcomeView::Done(ExprView::Closure(closure))
            &&& once.outcome == crate::machine::OutcomeView::Done(value)
            &&& twice.outcome == crate::machine::OutcomeView::Done(value)
        }),
{
    let unit = Unit { env, c: CompilerView::start() };
    let count = env.procedures.len();
    let reader = crate::opcode::ProcId(count as u16);
    let maker_proc = crate::opcode::ProcId((count + 1) as u16);
    let top = crate::opcode::ProcId((count + 2) as u16);
    law_capture_code(unit, outer, inner);
    let (compiled, program) = codegen::compile(env, constant_maker(outer, inner));
    let finished = unit.c.emit(Op::CreateClosure(maker_proc)).emit(Op::End);
    assert(finished.proc.code =~= seq![Op::CreateClosure(maker_proc), Op::End]);
    let procedures = env.procedures.push(reader_proto()).push(maker_proto(reader)).push(
        finished.proc.finish(),
    );
    assert(compiled.procedures == procedures);
    assert(compiled.closures == env.closures.push(
        crate::expr::ClosureView { proc: top, up_values: Seq::empty() },
    ));
    let entry = ClosureId(env.closures.len() as usize);
    assert(program == Ok::<ClosureId, ErrorView>(entry));
    assert(compiled.procedures[top.0 as int] == finished.proc.finish());
    assert(compiled.procedures[maker_proc.0 as int] == maker_proto(reader));
    assert(compiled.procedures[reader.0 as int] == reader_proto());
    lemma_closure_program(compiled, entry, maker_proc, fuel);
    let run = started(compiled, VmView::idle(), entry, Seq::empty(), fuel);
    law_captured_parameter_outlives(
        run.env,
        ClosureId((env.closures.len() + 1) as usize),
        reader,
        value,
        first,
        second,
        fuel,
    );
}

/// The capture instructions after a `CreateClosure` give the new closure
/// as many cells as were asked for.
pub proof fn law_capture_count(core: Core, remaining: nat, cells: Seq<CellId>)
    ensures
        capture(core, remaining, cells) matches Captured::Cells(after, captured)
            ==> captured.len() == cells.len() + remaining && after.operand == core.operand,
    decreases remaining,
{
    if remaining > 0 {
        match capture(core, remaining, cells) {
            Captured::Cells(_, _) => {
                match fetch(core.env, core.frame) {
                    Some(Op::CaptureValue(crate::opcode::UpValueOrigin::Parent(local))) => {
                        let pos = (core.frame.stack_offset + local.0) as nat;
                        let id = CellId(core.env.cells.len() as usize);
                        let next = Core {
                            env: EnvView {
                                cells: core.env.cells.push(UpValueView::Open(pos)),
                                ..core.env
                            },
                            operand: core.operand,
                            frame: FrameView {
                                up_values: core.frame.up_values.push(id),
                                pc: core.frame.pc + 1,
                                ..core.frame
                            },
                        };
                        law_capture_count(next, (remaining - 1) as nat, cells.push(id));
                    },
                    Some(Op::CaptureValue(crate::opcode::UpValueOrigin::Outer(up))) => {
                        let closure = crate::machine::running_closure(core.env, core.frame)->0;
                        let next = Core {
                            frame: FrameView { pc: core.frame.pc + 1, ..core.frame },
                            ..core
                        };
                        law_capture_count(
                            next,
                            (remaining - 1) as nat,
                            cells.push(closure.up_values[up.0 as int]),
                        );
                    },
                    _ => {},
                }
            },
            _ => {},
        }
    }
}

/// Whether every closure of the heap holds as many cells as its procedure
/// declares up-values.
pub open spec fn closures_match(env: EnvView) -> bool {
    forall|i: int|
        0 <= i < env.closures.len() ==> (#[trigger] env.closures[i]).proc.0 < env.procedures.len()
            && env.closures[i].up_values.len() == env.procedures[env.closures[i].proc.0 as int].up_value_count
}

/// Reading capture instructions adds no closure and no procedure.
proof fn lemma_capture_keeps(core: Core, remaining: nat, cells: Seq<CellId>)
    ensures
        capture(core, remaining, cells) matches Captured::Cells(after, _) ==> after.env.closures
            == core.env.closures && after.env.procedures == core.env.procedures,
    decreases remaining,
{
    if remaining > 0 {
        match fetch(core.env, core.frame) {
            Some(Op::CaptureValue(crate::opcode::UpValueOrigin::Parent(local))) => {
                let pos = (core.frame.stack_offset + local.0) as nat;
                let id = CellId(core.env.cells.len() as usize);
                let next = Core {
                    env: EnvView {
                        cells: core.env.cells.push(UpValueView::Open(pos)),
                        ..core.env
                    },
                    operand: core.operand,
                    frame: FrameView {
                        up_values: core.frame.up_values.push(id),
                        pc: core.frame.pc + 1,
                        ..core.frame
                    },
                };
                lemma_capture_keeps(next, (remaining - 1) as nat, cells.push(id));
            },
            Some(Op::CaptureValue(crate::opcode::UpValueOrigin::Outer(up))) => {
                match crate::machine::running_closure(core.env, core.frame) {
                    Some(closure) => {
                        let next = Core {
                            frame: FrameView { pc: core.frame.pc + 1, ..core.frame },
                            ..core
                        };
                        lemma_capture_keeps(
                            next,
                            (remaining - 1) as nat,
                            cells.push(closure.up_values[up.0 as int]),
                        );
                    },
                    None => {},
                }
            },
            _ => {},
        }
    }
}

/// Every instruction keeps the closures of the heap in step with their
/// procedures: a closure is made with as many cells as its procedure
/// declares up-values, and no closure changes afterwards.
pub proof fn law_closures_match(core: Core)
    requires
        closures_match(core.env),
    ensures
        match exec_op(core) {
            OpResult::Continue(after) => closures_match(after.env),
            OpResult::Action(after, _) => closures_match(after.env),
            OpResult::Fail(env, _) => closures_match(env),
        },
{
    match fetch(core.env, core.frame) {
        Some(Op::CreateClosure(proc)) => {
            let stepped = Core {
                frame: FrameView { pc: core.frame.pc + 1, ..core.frame },
                ..core
            };
            if proc.0 < core.env.procedures.len() {
                let count = core.env.procedures[proc.0 as int].up_value_count;
                law_capture_count(stepped, count, Seq::empty());
                lemma_capture_keeps(stepped, count, Seq::empty());
                lemma_capture_fails(stepped, count, Seq::empty());
                match exec_op(core) {
                    OpResult::Continue(after) => {
                        assert forall|i: int| 0 <= i < after.env.closures.len() implies (#[trigger] after.env.closures[i]).proc.0
                            < after.env.procedures.len() && after.env.closures[i].up_values.len()
                            == after.env.procedures[after.env.closures[i].proc.0 as int].up_value_count by {
                            if i < core.env.closures.len() {
                                assert(after.env.closures[i] == core.env.closures[i]);
                            }
                        }
                    },
                    _ => {},
                }
            }
        },
        _ => {},
    }
}

/// Capture instructions that cannot be read leave closures and procedures alone.
proof fn lemma_capture_fails(core: Core, remaining: nat, cells: Seq<CellId>)
    ensures
        capture(core, remaining, cells) matches Captured::Invalid(env) ==> env.closures
            == core.env.closures && env.procedures == core.env.procedures,
    decreases remaining,
{
    if remaining > 0 {
        match fetch(core.env, core.frame) {
            Some(Op::CaptureValue(crate::opcode::UpValueOrigin::Parent(local))) => {
                let pos = (core.frame.stack_offset + local.0) as nat;
                let id = CellId(core.env.cells.len() as usize);
                let next = Core {
                    env: EnvView {
                        cells: core.env.cells.push(UpValueView::Open(pos)),
                        ..core.env
                    },
                    operand: core.operand,
                    frame: FrameView {
                        up_values: core.frame.up_values.push(id),
                        pc: core.frame.pc + 1,
                        ..core.frame
                    },
                };
                lemma_capture_fails(next, (remaining - 1) as nat, cells.push(id));
            },
            Some(Op::CaptureValue(crate::opcode::UpValueOrigin::Outer(up))) => {
                match crate::machine::running_closure(core.env, core.frame) {
                    Some(closure) => {
                        let next = Core {
                            frame: FrameView { pc: core.frame.pc + 1, ..core.frame },
                            ..core
                        };
                        lemma_capture_fails(
                            next,
                            (remaining - 1) as nat,
                            cells.push(closure.up_values[up.0 as int]),
                        );
                    },
                    None => {},
                }
            },
            _ => {},
        }
    }
}

/// `assert-eq` of a value and itself never fails, whatever the value.
/// `assert-eq` of two values that differ fails, over the two, unless both
/// are numbers: of those the host says whether they are equal as numbers,
/// and the call fails exactly if they are not.
pub proof fn law_assert_eq(x: ExprView, y: ExprView)
    ensures
        call_spec(Builtin::AssertEq, seq![x, x]) == ReplyView::Value(ExprView::List(seq![x, x])),
        call_spec(Builtin::AssertEq, seq![x, y]) is Value <==> expr_eq(x, y),
        call_spec(Builtin::AssertEq, seq![x, y]) is Error <==> !expr_eq(x, y) && !(x is Number
            && y is Number),
        call_spec(Builtin::AssertEq, seq![x, y]) matches ReplyView::Error(e) ==> e
            == ErrorView::AssertEq(x, y),
        call_spec(Builtin::AssertEq, seq![x, y]) matches ReplyView::Equal { left, right } ==> x
            == ExprView::Number(left) && y == ExprView::Number(right) && left != right,
{
}

/// `assert-eq` of two numbers fails exactly if the two are not equal as
/// numbers, and then over the two.
pub proof fn law_assert_eq_numbers(left: u64, right: u64, equal: bool)
    ensures
        assert_eq_numbers_spec(left, right, equal) is Ok <==> equal,
        assert_eq_numbers_spec(left, right, equal) matches Err(e) ==> e == ErrorView::AssertEq(
            ExprView::Number(left),
            ExprView::Number(right),
        ),
{
}

/// Equality of values is an equivalence: every value equals itself, and
/// equality goes both ways and carries over.
pub proof fn law_equality(x: ExprView, y: ExprView, z: ExprView)
    ensures
        expr_eq(x, x),
        expr_eq(x, y) == expr_eq(y, x),
        expr_eq(x, y) && expr_eq(y, z) ==> expr_eq(x, z),
{
}

/// A value stored in a variable of the environment is the value that a
/// load of the variable pushes, as long as no other store to the variable
/// comes between.
pub proof fn law_store_then_load(store: Core, load: Core, symbol: SymbolId)
    requires
        fetch(store.env, store.frame) == Some(Op::StoreEnvVar(symbol)),
        symbol.0 < store.env.values.len(),
        exec_op(store) matches OpResult::Continue(stored) && load.env.values == stored.env.values,
        fetch(load.env, load.frame) == Some(Op::LoadEnvVar(symbol)),
    ensures
        exec_op(load) matches OpResult::Continue(loaded) && loaded.operand == load.operand.push(
            top_or_void(store.operand),
        ),
{
}

/// Whether the code of the procedure that a frame runs holds the given
/// instructions from the program counter of the frame on.
pub open spec fn runs(env: EnvView, frame: FrameView, code: Seq<Op>) -> bool {
    &&& crate::machine::running_proc(env, frame) matches Some(proc)
    &&& frame.pc + code.len() <= proc.code.len()
    &&& forall|i: int| 0 <= i < code.len() ==> #[trigger] proc.code[frame.pc + i] == code[i]
}

/// The instructions that a definition at the top level adds after the code
/// of its value, followed by a reference to the name that ends the program.
pub open spec fn define_then_read(symbol: SymbolId) -> Seq<Op> {
    seq![
        Op::StoreEnvVar(symbol),
        Op::Pop,
        Op::PushVoid,
        Op::Pop,
        Op::LoadEnvVar(symbol),
        Op::End,
    ]
}

/// A definition at the top level followed by a reference to its name gives
/// the value that was defined, whatever that value is: once the code of the
/// value has left the value on the stack, the program stores it in the
/// variable, and the run ends with that value as its result and with the
/// variable holding it, for later runs to see.
pub proof fn law_define_then_read(env: EnvView, vm: VmView, symbol: SymbolId, fuel: nat)
    requires
        vm.frames.len() == 1,
        vm.pending is None,
        runs(env, vm.frames[0], define_then_read(symbol)),
        vm.frames[0].up_values.len() == 0,
        vm.operand.len() >= 1,
        symbol.0 < env.values.len(),
        fuel >= 6,
    ensures
        interpret(env, vm, fuel) == (crate::machine::Run {
            env: env.set(symbol, vm.operand.last()),
            vm: VmView::idle(),
            outcome: crate::machine::OutcomeView::Done(vm.operand.last()),
        }),
        env.set(symbol, vm.operand.last()).get(symbol) == Some(vm.operand.last()),
{
    let code = define_then_read(symbol);
    let value = vm.operand.last();
    let frame0 = vm.frames[0];
    let proc = crate::machine::running_proc(env, frame0)->0;
    let pc = frame0.pc;
    let parents = vm.frames.drop_last();
    assert(parents =~= Seq::<FrameView>::empty());
    assert(vm.frames.last() == frame0);
    assert(proc.code[frame0.pc + 0int] == code[0]);
    assert(proc.code[frame0.pc + 1int] == code[1]);
    assert(proc.code[frame0.pc + 2int] == code[2]);
    assert(proc.code[frame0.pc + 3int] == code[3]);
    assert(proc.code[frame0.pc + 4int] == code[4]);
    assert(proc.code[frame0.pc + 5int] == code[5]);
    // The store.
    let env1 = env.set(symbol, value);
    let frame1 = FrameView { pc: pc + 1, ..frame0 };
    let vm1 = VmView { operand: vm.operand, frames: seq![frame1], pending: None };
    assert(exec_op(Core { env, operand: vm.operand, frame: frame0 }) == OpResult::Continue(
        Core { env: env1, operand: vm.operand, frame: frame1 },
    ));
    assert(parents.push(frame1) =~= seq![frame1]);
    assert(interpret(env, vm, fuel) == interpret(env1, vm1, (fuel - 1) as nat));
    // The value of the definition is popped: the form is void.
    let below = vm.operand.drop_last();
    let frame2 = FrameView { pc: pc + 2, ..frame0 };
    let vm2 = VmView { operand: below, frames: seq![frame2], pending: None };
    assert(vm1.frames.drop_last() =~= Seq::<FrameView>::empty());
    assert(crate::machine::running_proc(env1, frame1) == Some(proc));
    assert(exec_op(Core { env: env1, operand: vm.operand, frame: frame1 }) == OpResult::Continue(
        Core { env: env1, operand: below, frame: frame2 },
    ));
    assert(vm1.frames.drop_last().push(frame2) =~= seq![frame2]);
    assert(interpret(env1, vm1, (fuel - 1) as nat) == interpret(env1, vm2, (fuel - 2) as nat));
    let frame3 = FrameView { pc: pc + 3, ..frame0 };
    let vm3 = VmView {
        operand: below.push(ExprView::Void),
        frames: seq![frame3],
        pending: None,
    };
    assert(vm2.frames.drop_last() =~= Seq::<FrameView>::empty());
    assert(crate::machine::running_proc(env1, frame2) == Some(proc));
    assert(exec_op(Core { env: env1, operand: below, frame: frame2 }) == OpResult::Continue(
        Core { env: env1, operand: below.push(ExprView::Void), frame: frame3 },
    ));
    assert(vm2.frames.drop_last().push(frame3) =~= seq![frame3]);
    assert(interpret(env1, vm2, (fuel - 2) as nat) == interpret(env1, vm3, (fuel - 3) as nat));
    // The void is popped by the sequence.
    let frame4 = FrameView { pc: pc + 4, ..frame0 };
    let vm4 = VmView { operand: below, frames: seq![frame4], pending: None };
    assert(vm3.frames.drop_last() =~= Seq::<FrameView>::empty());
    assert(crate::machine::running_proc(env1, frame3) == Some(proc));
    assert(below.push(ExprView::Void).drop_last() =~= below);
    assert(exec_op(Core { env: env1, operand: below.push(ExprView::Void), frame: frame3 })
        == OpResult::Continue(Core { env: env1, operand: below, frame: frame4 }));
    assert(vm3.frames.drop_last().push(frame4) =~= seq![frame4]);
    assert(interpret(env1, vm3, (fuel - 3) as nat) == interpret(env1, vm4, (fuel - 4) as nat));
    // The reference loads what the definition stored.
    let frame5 = FrameView { pc: pc + 5, ..frame0 };
    let vm5 = VmView { operand: below.push(value), frames: seq![frame5], pending: None };
    assert(vm4.frames.drop_last() =~= Seq::<FrameView>::empty());
    assert(crate::machine::running_proc(env1, frame4) == Some(proc));
    assert(env1.get(symbol) == Some(value));
    assert(exec_op(Core { env: env1, operand: below, frame: frame4 }) == OpResult::Continue(
        Core { env: env1, operand: below.push(value), frame: frame5 },
    ));
    assert(vm4.frames.drop_last().push(frame5) =~= seq![frame5]);
    assert(interpret(env1, vm4, (fuel - 4) as nat) == interpret(env1, vm5, (fuel - 5) as nat));
    // The end of the program.
    assert(vm5.frames.drop_last() =~= Seq::<FrameView>::empty());
    assert(crate::machine::running_proc(env1, frame5) == Some(proc));
    assert(below.push(value).drop_last() =~= below);
    assert(frame5.up_values =~= Seq::<CellId>::empty());
    let frame6 = FrameView { up_values: Seq::empty(), pc: pc + 6, ..frame0 };
    assert(exec_op(Core { env: env1, operand: below.push(value), frame: frame5 })
        == OpResult::Action(
        Core { env: EnvView { cells: env1.cells, ..env1 }, operand: below, frame: frame6 },
        crate::machine::ActionView::Return(value),
    ));
    let last = Core { env: EnvView { cells: env1.cells, ..env1 }, operand: below, frame: frame6 };
    assert(last.env == env1);
    assert(crate::machine::applied(
        vm5.frames.drop_last(),
        last,
        crate::machine::ActionView::Return(value),
        (fuel - 6) as nat,
    ) == (crate::machine::Run {
        env: env1,
        vm: VmView::idle(),
        outcome: crate::machine::OutcomeView::Done(value),
    }));
    assert(interpret(env1, vm5, (fuel - 5) as nat) == (crate::machine::Run {
        env: env1,
        vm: VmView::idle(),
        outcome: crate::machine::OutcomeView::Done(value),
    }));
}

/// The state after the three instructions that end a definition at the
/// top level: the store to the variable, the pop of the value, and the void.
pub open spec fn stored(unit: Unit, symbol: SymbolId) -> Unit {
    codegen::emitted(
        codegen::emitted(codegen::emitted(unit, Op::StoreEnvVar(symbol)), Op::Pop),
        Op::PushVoid,
    )
}

/// The expression `(define name value)`.
pub open spec fn definition_of(name: Seq<char>, value: ExprView) -> ExprView {
    ExprView::List(seq![ExprView::Ident("define"@), ExprView::Ident(name), value])
}

/// The code of `(define name value)` at the top level is the code of the
/// value, compiled with the name interned, and the three instructions that
/// end a definition.
proof fn lemma_definition_code(unit: Unit, name: Seq<char>, value: ExprView, compiled: Unit)
    requires
        unit.c.context == codegen::Context::TopLevel,
        unit.env.can_intern(name),
        codegen::compile_expr(Unit { env: unit.env.intern(name), ..unit }, value) == codegen::done(
            compiled,
        ),
    ensures
        unit.env.intern(name).resolve(name) is Some,
        codegen::compile_expr(unit, definition_of(name, value)) == codegen::done(
            stored(compiled, unit.env.intern(name).resolve(name)->0),
        ),
{
    let prepared = Unit { env: unit.env.intern(name), ..unit };
    let list = definition_of(name, value)->List_0;
    crate::symbol::lemma_position(unit.env.names, name, 0);
    if crate::symbol::position(unit.env.names, name) is None {
        crate::symbol::lemma_position_push(unit.env.names, name, name, 0);
    }
    let symbol = prepared.env.resolve(name)->0;
    assert(prepared.env.resolve(name) == Some(symbol));
    assert(codegen::special_of(list) == Some(codegen::Special::Define)) by {
        reveal(codegen::special_form);
    }
    assert(codegen::define_prepare(unit, name) == Some((prepared, Some(symbol)))) by {
        reveal(codegen::define_prepare);
    }
    assert(list[2] == value);
    assert(codegen::compile_defined(prepared, list, None) == codegen::done(compiled));
    let result = codegen::done(stored(compiled, symbol));
    assert(codegen::define_finish(unit.c.context, Some(symbol), compiled, name) == result) by {
        reveal(codegen::define_finish);
    }
    assert(codegen::compile_definition(unit, name, list, None) == result);
    assert(list[1] == ExprView::Ident(name));
    assert(codegen::compile_define_form(unit, list) == result);
    assert(codegen::compile_form(unit, list) == result);
}

/// The code of a reference to a name that no local hides and that the
/// environment knows is the load of the variable of the environment.
proof fn lemma_read_code(unit: Unit, name: Seq<char>, symbol: SymbolId)
    requires
        codegen::local_position(unit.c.locals, name, unit.c.locals.len()) is None,
        unit.env.resolve(name) == Some(symbol),
    ensures
        codegen::compile_expr(unit, ExprView::Ident(name)) == codegen::done(
            codegen::emitted(unit, Op::LoadEnvVar(symbol)),
        ),
{
    reveal(codegen::compile_access);
    reveal(codegen::resolve);
}

/// The code of a definition at the top level followed by a reference to
/// the name, for every value that compiles: the code of the value, compiled
/// with the name interned, and after it the instructions that store the
/// value in the variable, make the form void, drop the void, and load the
/// same variable.  No local may hide the name, as none does in a program.
pub proof fn law_define_read_code(unit: Unit, name: Seq<char>, value: ExprView)
    requires
        unit.c.context == codegen::Context::TopLevel,
        unit.env.can_intern(name),
        codegen::local_position(unit.c.locals, name, unit.c.locals.len()) is None,
        codegen::compile_expr(Unit { env: unit.env.intern(name), ..unit }, value).error is None,
    ensures
        ({
            let prepared = Unit { env: unit.env.intern(name), ..unit };
            let symbol = prepared.env.resolve(name)->0;
            let compiled = codegen::compile_expr(prepared, value);
            let program = seq![definition_of(name, value), ExprView::Ident(name)];
            let code = codegen::done(
                codegen::emitted(
                    codegen::emitted(stored(compiled.unit, symbol), Op::Pop),
                    Op::LoadEnvVar(symbol),
                ),
            );
            &&& prepared.env.resolve(name) is Some
            &&& compiled.unit.env.resolve(name) == Some(symbol)
            &&& codegen::compile_sequence(unit, program, 0) == code
            &&& codegen::compile_expr(unit, ExprView::Sequence(program)) == code
        }),
{
    let prepared = Unit { env: unit.env.intern(name), ..unit };
    let symbol = prepared.env.resolve(name)->0;
    let compiled = codegen::compile_expr(prepared, value);
    let program = seq![definition_of(name, value), ExprView::Ident(name)];
    lemma_definition_code(unit, name, value, compiled.unit);
    crate::scoping::lemma_expr(prepared, value);
    crate::scoping::lemma_symbol_kept(prepared.env.names, compiled.unit.env.names, name);
    let popped = codegen::emitted(stored(compiled.unit, symbol), Op::Pop);
    assert(popped.c.locals == unit.c.locals);
    assert(popped.env == compiled.unit.env);
    lemma_read_code(popped, name, symbol);
    let read = codegen::emitted(popped, Op::LoadEnvVar(symbol));
    assert(program[0] == definition_of(name, value));
    assert(program[1] == ExprView::Ident(name));
    assert(codegen::compile_sequence(popped, program, 1) == codegen::done(read));
    assert(codegen::compile_sequence(unit, program, 0) == codegen::done(read));
}

/// The program `(define name value)` followed by `name`.
pub open spec fn define_and_read(name: Seq<char>, value: ExprView) -> ExprView {
    ExprView::Sequence(seq![definition_of(name, value), ExprView::Ident(name)])
}

/// A definition followed by a reference to its name, from the program to
/// the end of its run, for every value that compiles.  In the
/// compiled program the code of the value is followed by the instructions of
/// [`define_then_read`].  So once the run has come to the end of the code of
/// the value, with the value on the stack and no captured variable open in
/// the frame of the program, the run ends with that value as its result, and
/// with the variable holding it.  `after` and `vm` are the state at that time.
pub proof fn law_define_read_program(
    env: EnvView,
    name: Seq<char>,
    value: ExprView,
    after: EnvView,
    vm: VmView,
    fuel: nat,
)
    requires
        env.can_intern(name),
        codegen::compile(env, define_and_read(name, value)).1 is Ok,
        codegen::compile(env, define_and_read(name, value)).0.closures.len() <= usize::MAX,
        ({
            let (compiled, closure) = codegen::compile(env, define_and_read(name, value));
            let prepared = Unit { env: env.intern(name), c: CompilerView::start() };
            let code = codegen::compile_expr(prepared, value).unit.c.proc.code;
            &&& vm.frames.len() == 1
            &&& vm.pending is None
            &&& vm.operand.len() >= 1
            &&& vm.frames[0].closure == closure->Ok_0
            &&& vm.frames[0].pc == code.len()
            &&& vm.frames[0].up_values.len() == 0
            &&& crate::machine::running_proc(after, vm.frames[0]) == crate::machine::running_proc(
                compiled,
                vm.frames[0],
            )
            &&& compiled.resolve(name) matches Some(symbol) && symbol.0 < after.values.len()
        }),
        fuel >= 6,
    ensures
        ({
            let symbol = env.intern(name).resolve(name)->0;
            &&& codegen::compile(env, define_and_read(name, value)).0.resolve(name) == Some(symbol)
            &&& interpret(after, vm, fuel) == (crate::machine::Run {
                env: after.set(symbol, vm.operand.last()),
                vm: VmView::idle(),
                outcome: crate::machine::OutcomeView::Done(vm.operand.last()),
            })
            &&& after.set(symbol, vm.operand.last()).get(symbol) == Some(vm.operand.last())
        }),
{
    let unit = Unit { env, c: CompilerView::start() };
    let prepared = Unit { env: env.intern(name), ..unit };
    let symbol = prepared.env.resolve(name)->0;
    let compiled = codegen::compile_expr(prepared, value);
    let program = seq![definition_of(name, value), ExprView::Ident(name)];
    assert(codegen::local_position(unit.c.locals, name, unit.c.locals.len()) is None) by {
        reveal(codegen::local_position);
    }
    // If the value did not compile, neither would the program.
    if compiled.error is Some {
        let list = definition_of(name, value)->List_0;
        assert(codegen::special_of(list) == Some(codegen::Special::Define)) by {
            reveal(codegen::special_form);
        }
        crate::symbol::lemma_position(env.names, name, 0);
        if crate::symbol::position(env.names, name) is None {
            crate::symbol::lemma_position_push(env.names, name, name, 0);
        }
        assert(codegen::define_prepare(unit, name) == Some((prepared, Some(symbol)))) by {
            reveal(codegen::define_prepare);
        }
        assert(list[2] == value);
        assert(list[1] == ExprView::Ident(name));
        assert(codegen::compile_defined(prepared, list, None) == compiled);
        assert(codegen::compile_definition(unit, name, list, None) == compiled);
        assert(codegen::compile_define_form(unit, list) == compiled);
        assert(codegen::compile_form(unit, list) == compiled);
        assert(program[0] == definition_of(name, value));
        assert(codegen::compile_expr(unit, program[0]) == compiled);
        assert(codegen::compile_sequence(unit, program, 0) == compiled);
        assert(codegen::compile_expr(unit, define_and_read(name, value)) == compiled);
        assert(false);
    }
    law_define_read_code(unit, name, value);
    let read = codegen::emitted(
        codegen::emitted(stored(compiled.unit, symbol), Op::Pop),
        Op::LoadEnvVar(symbol),
    );
    assert(codegen::compile_expr(unit, define_and_read(name, value)) == codegen::done(read));
    let finished = read.c.emit(Op::End);
    let code = compiled.unit.c.proc.code;
    let (built, closure) = codegen::compile(env, define_and_read(name, value));
    let proc = crate::opcode::ProcId(read.env.procedures.len() as u16);
    assert(built.procedures[proc.0 as int] == finished.proc.finish());
    assert(built.closures[closure->Ok_0.0 as int].proc == proc);
    assert(built.names == compiled.unit.env.names);
    let tail = define_then_read(symbol);
    assert(finished.proc.code.len() == code.len() + 6);
    assert forall|i: int| 0 <= i < tail.len() implies #[trigger] finished.proc.code[code.len() + i]
        == tail[i] by {
    }
    assert(runs(after, vm.frames[0], tail));
    law_define_then_read(after, vm, symbol, fuel);
}

/// The definition of a name at the top level stores to the symbol that a
/// later reference to the name loads from, unless a local hides the name.
pub proof fn law_define_symbol(unit: Unit, name: Seq<char>)
    requires
        unit.c.context == codegen::Context::TopLevel,
        unit.env.can_intern(name),
        codegen::local_position(unit.c.locals, name, unit.c.locals.len()) is None,
    ensures
        codegen::define_prepare(unit, name) matches Some((prepared, Some(symbol)))
            && codegen::compile_access(prepared, name) == codegen::done(
            codegen::emitted(prepared, Op::LoadEnvVar(symbol)),
        ) && codegen::define_finish(codegen::Context::TopLevel, Some(symbol), prepared, name)
            == codegen::done(
            codegen::emitted(
                codegen::emitted(
                    codegen::emitted(prepared, Op::StoreEnvVar(symbol)),
                    Op::Pop,
                ),
                Op::PushVoid,
            ),
        ),
{
    reveal(codegen::define_prepare);
    reveal(codegen::define_finish);
    reveal(codegen::compile_access);
    reveal(codegen::resolve);
    crate::symbol::lemma_position(unit.env.names, name, 0);
    if crate::symbol::position(unit.env.names, name) is None {
        crate::symbol::lemma_position_push(unit.env.names, name, name, 0);
    }
}

/// A local can be declared exactly if the procedure has no local of that
/// name yet and fewer locals than a call frame holds.
pub proof fn law_local_limit(c: CompilerView, name: Seq<char>)
    requires
        c.wf(),
    ensures
        codegen::declare_local(c, name) is Ok <==> !codegen::declared(
            c.locals,
            name,
            c.depth,
            c.locals.len(),
        ) && c.locals.len() - c.stack_offset < MAX_LOCALS,
        codegen::declare_local(c, name) == Err::<
            (CompilerView, crate::opcode::LocalId),
            CompileError,
        >(CompileError::TooManyLocals) <==> !codegen::declared(
            c.locals,
            name,
            c.depth,
            c.locals.len(),
        ) && c.locals.len() - c.stack_offset >= MAX_LOCALS,
{
    reveal(codegen::declare_local);
}

/// A conditional whose jumps would have to go to an address beyond 24 bits
/// is refused: the jump over the consequent can be made exactly if the
/// address after it fits, and the jump over the alternative likewise.
pub proof fn law_jump_limit(branch: nat, skip: nat, unit: Unit)
    ensures
        codegen::if_middle(branch, unit).error is None <==> codegen::code_len(unit) + 1
            < MAX_JUMP_ADDR,
        codegen::if_middle(branch, unit).error matches Some(e) ==> e == ErrorView::Compile(
            CompileError::JumpTooFar,
            Seq::empty(),
        ),
        codegen::if_end(skip, unit).error is None <==> codegen::code_len(unit) < MAX_JUMP_ADDR,
        codegen::if_end(skip, unit).error matches Some(e) ==> e == ErrorView::Compile(
            CompileError::JumpTooFar,
            Seq::empty(),
        ),
{
    reveal(codegen::if_middle);
    reveal(codegen::if_end);
}

/// Two names that are interned in one environment get the same symbol
/// exactly if they are the same name.
pub proof fn law_symbols(env: EnvView, a: Seq<char>, b: Seq<char>)
    requires
        env.names.len() + 2 <= crate::limits::MAX_TABLE,
    ensures
        ({
            let interned = env.intern(a).intern(b);
            &&& interned.resolve(a) is Some
            &&& interned.resolve(b) is Some
            &&& interned.resolve(a) == interned.resolve(b) <==> a == b
        }),
{
    let first = env.intern(a);
    let second = first.intern(b);
    crate::symbol::lemma_position(env.names, a, 0);
    crate::symbol::lemma_position_push(env.names, a, a, 0);
    crate::symbol::lemma_position(first.names, a, 0);
    crate::symbol::lemma_position(first.names, b, 0);
    crate::symbol::lemma_position_push(first.names, b, a, 0);
    crate::symbol::lemma_position_push(first.names, b, b, 0);
    crate::symbol::lemma_position(second.names, a, 0);
    crate::symbol::lemma_position(second.names, b, 0);
}

/// A conditional whose jumps would need a target beyond 24 bits does not
/// compile.  Once the test and the consequent are compiled, the form fails
/// with the error of a jump too far if the address after the jump over the
/// alternative does not fit; and once the alternative is compiled too, if
/// the address of the end of the form does not fit.  A conditional that
/// compiles ends at an address that fits.
pub proof fn law_conditional(unit: Unit, list: Seq<ExprView>)
    requires
        3 <= list.len() <= 4,
    ensures
        ({
            let too_far = Some(ErrorView::Compile(CompileError::JumpTooFar, Seq::empty()));
            let test = codegen::compile_expr(unit, list[1]);
            let consequent = codegen::compile_expr(codegen::if_begin(test.unit), list[2]);
            let middle = codegen::if_middle(codegen::code_len(test.unit), consequent.unit);
            let alternative = if list.len() == 4 {
                codegen::compile_expr(middle.unit, list[3])
            } else {
                codegen::done(codegen::emitted(middle.unit, Op::PushVoid))
            };
            let whole = codegen::compile_if_form(unit, list);
            &&& test.error is None && consequent.error is None && codegen::code_len(
                consequent.unit,
            ) + 1 >= MAX_JUMP_ADDR ==> whole.error == too_far
            &&& test.error is None && consequent.error is None && middle.error is None
                && alternative.error is None && codegen::code_len(alternative.unit)
                >= MAX_JUMP_ADDR ==> whole.error == too_far
            &&& whole.error is None ==> codegen::code_len(whole.unit) < MAX_JUMP_ADDR
        }),
{
    reveal(codegen::if_middle);
    reveal(codegen::if_end);
    let test = codegen::compile_expr(unit, list[1]);
    let consequent = codegen::compile_expr(codegen::if_begin(test.unit), list[2]);
    let middle = codegen::if_middle(codegen::code_len(test.unit), consequent.unit);
    let alternative = if list.len() == 4 {
        codegen::compile_expr(middle.unit, list[3])
    } else {
        codegen::done(codegen::emitted(middle.unit, Op::PushVoid))
    };
    let whole = codegen::compile_if_form(unit, list);
    if test.error is None && consequent.error is None {
        if middle.error is None {
            if alternative.error is None {
                assert(whole == codegen::if_end(
                    codegen::code_len(consequent.unit),
                    alternative.unit,
                ));
            } else {
                assert(whole == alternative);
            }
        } else {
            assert(whole == middle);
        }
    }
}

/// An expression that does not compile makes the program that it is fail
/// with the same error: no closure is made and no procedure added.
pub proof fn law_compile_error(env: EnvView, program: ExprView)
    ensures
        ({
            let compiled = codegen::compile_expr(
                Unit { env, c: CompilerView::start() },
                program,
            );
            &&& compiled.error matches Some(error) ==> codegen::compile(env, program) == (
                compiled.unit.env,
                Err::<ClosureId, ErrorView>(error),
            )
            &&& (program is List && codegen::special_of(program->List_0) == Some(
                codegen::Special::If,
            )) ==> compiled == codegen::compile_if_form(
                Unit { env, c: CompilerView::start() },
                program->List_0,
            )
        }),
{
}

/// An error in a part of an expression is the error of the whole: of a
/// sequence if one of its expressions fails, of a call if an argument fails,
/// of a definition if its value fails, of a procedure if its body fails, and
/// of a conditional if its test, its consequent or its alternative fails.
/// So a conditional that is refused for a jump too far, wherever in a
/// program it stands, stops the compiler with that error.
pub proof fn law_failure_carries(unit: Unit, list: Seq<ExprView>, from: nat, name: Seq<char>)
    ensures
        codegen::compile_expr(unit, ExprView::Sequence(list)) == codegen::compile_sequence(
            unit,
            list,
            0,
        ),
        codegen::compile_expr(unit, ExprView::List(list)) == codegen::compile_form(unit, list),
        // A sequence, and the arguments of a call.
        from < list.len() ==> {
            let part = codegen::compile_expr(unit, list[from as int]);
            &&& part.error is Some ==> codegen::compile_sequence(unit, list, from) == part
                && codegen::compile_args(unit, list, from) == part
            &&& part.error is None && from + 1 < list.len() ==> codegen::compile_sequence(
                unit,
                list,
                from,
            ) == codegen::compile_sequence(codegen::emitted(part.unit, Op::Pop), list, from + 1)
            &&& part.error is None ==> codegen::compile_args(unit, list, from)
                == codegen::compile_args(part.unit, list, from + 1)
        },
        // A call.
        list.len() > 0 && list.len() - 1 <= crate::limits::MAX_ARGS && list[0]
            == ExprView::Ident(name) ==> {
            let callee = codegen::compile_access(unit, name);
            let args = codegen::compile_args(callee.unit, list, 1);
            &&& callee.error is Some ==> codegen::compile_call(unit, list) == callee
            &&& callee.error is None && args.error is Some ==> codegen::compile_call(unit, list)
                == args
        },
        // The value of a definition.
        codegen::define_prepare(unit, name) matches Some((prepared, _)) ==> {
            let value = codegen::compile_defined(prepared, list, None);
            &&& list.len() > 2 ==> value == codegen::compile_expr(prepared, list[2])
            &&& value.error is Some ==> codegen::compile_definition(unit, name, list, None)
                == value
        },
        // The body of a procedure.
        list.len() >= 2 ==> (codegen::lambda_enter(unit, list[1], 0) matches Ok(inner) ==> {
            let body = codegen::compile_body(inner, list, 2);
            let (defined, rest) = codegen::compile_defines(
                codegen::in_context(inner, codegen::Context::BodyStart),
                list,
                2,
            );
            let sequence = codegen::compile_sequence(
                codegen::in_context(defined.unit, codegen::Context::BodyRest),
                list,
                rest,
            );
            &&& body.error is Some ==> codegen::compile_lambda_form(unit, list) == body
            &&& defined.error is Some ==> body == defined
            &&& defined.error is None && rest <= list.len() && sequence.error is Some ==> body
                == sequence
        }),
        // The parts of a conditional.
        3 <= list.len() <= 4 ==> {
            let test = codegen::compile_expr(unit, list[1]);
            let consequent = codegen::compile_expr(codegen::if_begin(test.unit), list[2]);
            let middle = codegen::if_middle(codegen::code_len(test.unit), consequent.unit);
            let whole = codegen::compile_if_form(unit, list);
            &&& test.error is Some ==> whole == test
            &&& test.error is None && consequent.error is Some ==> whole == consequent
            &&& test.error is None && consequent.error is None && middle.error is None
                && list.len() == 4 && codegen::compile_expr(middle.unit, list[3]).error is Some
                ==> whole == codegen::compile_expr(middle.unit, list[3])
        },
{
    if list.len() >= 2 {
        match codegen::lambda_enter(unit, list[1], 0) {
            Ok(inner) => {
                let body = codegen::compile_body(inner, list, 2);
                if body.error is Some {
                    assert(codegen::compile_lambda(unit, list[1], 0, list, 2) == body);
                }
            },
            Err(_) => {},
        }
    }
}

/// `number?` is true of numbers and false of all other values.
pub proof fn law_is_number(value: ExprView, rest: Seq<ExprView>)
    ensures
        call_spec(Builtin::IsNumber, seq![value] + rest) == ReplyView::Value(
            ExprView::Bool(value is Number),
        ),
{
}

} // verus!
