//! The virtual machine on bytecode that is assembled by hand.
use scheme_engine::error::{Error, RuntimeError};
use scheme_engine::expr::{CellId, NativeFunc, Signature, UpValue};
use scheme_engine::opcode::{
    ConstantId, JumpAddr, LocalId, Op, ProcId, SymbolId, UpValueId, UpValueOrigin,
};
use scheme_engine::{call, eval, proceed, resume, Closure, ClosureId, Env, Expr, Outcome, Proc, Vm};

fn num(value: f64) -> Expr {
    Expr::Number(value.to_bits())
}

/// A procedure without arguments, locals or up-values.
fn plain(code: Vec<Op>, constants: Vec<Expr>) -> Proc {
    Proc::assemble(code, Signature::empty(), constants, 0, 0)
}

fn closure_of(env: &mut Env, proc: Proc) -> ClosureId {
    let id = env.add_procedure(proc);
    env.alloc_closure(Closure::new(id))
}

fn run_code(code: Vec<Op>, constants: Vec<Expr>) -> Outcome {
    let mut env = Env::new();
    let closure = closure_of(&mut env, plain(code, constants));
    eval(&mut Vm::new(), &mut env, closure, 1_000)
}

fn value_of(code: Vec<Op>, constants: Vec<Expr>) -> Expr {
    match run_code(code, constants) {
        Outcome::Done(value) => value,
        other => panic!("unexpected outcome {other:?}"),
    }
}

fn error_of(code: Vec<Op>) -> RuntimeError {
    match run_code(code, vec![]) {
        Outcome::Failed(Error::Runtime(kind)) => kind,
        other => panic!("unexpected outcome {other:?}"),
    }
}

#[test]
fn literals_are_pushed() {
    assert!(matches!(value_of(vec![Op::PushNil, Op::End], vec![]), Expr::Nil));
    assert!(matches!(value_of(vec![Op::PushVoid, Op::End], vec![]), Expr::Void));
    assert_eq!(value_of(vec![Op::PushTrue, Op::End], vec![]), Expr::Bool(true));
    assert_eq!(value_of(vec![Op::PushFalse, Op::Return], vec![]), Expr::Bool(false));
    assert_eq!(
        value_of(vec![Op::PushConstant(ConstantId::new(1)), Op::End], vec![num(1.0), num(2.0)]),
        num(2.0)
    );
    // A constant that the procedure does not have is void.
    assert!(matches!(
        value_of(vec![Op::PushConstant(ConstantId::new(2)), Op::End], vec![num(1.0), num(2.0)]),
        Expr::Void
    ));
}

#[test]
fn pop_discards_the_top() {
    assert_eq!(
        value_of(vec![Op::PushTrue, Op::PushFalse, Op::Pop, Op::End], vec![]),
        Expr::Bool(true)
    );
    // Popping an empty stack does nothing; the program then ends without a
    // value of its own.
    assert!(matches!(
        value_of(vec![Op::Pop, Op::Pop, Op::End], vec![]),
        Expr::Void
    ));
}

#[test]
fn jump_false_jumps_on_false_only_and_keeps_the_value() {
    let code = |test: Op| {
        vec![
            test,
            Op::JumpFalse(JumpAddr::new(4)),
            Op::PushConstant(ConstantId::new(0)),
            Op::End,
            // The tested value is still on the stack here.
            Op::End,
        ]
    };
    assert_eq!(value_of(code(Op::PushTrue), vec![num(1.0)]), num(1.0));
    assert_eq!(value_of(code(Op::PushNil), vec![num(1.0)]), num(1.0));
    assert_eq!(value_of(code(Op::PushFalse), vec![num(1.0)]), Expr::Bool(false));
}

#[test]
fn jump_goes_to_its_address() {
    assert_eq!(
        value_of(
            vec![Op::Jump(JumpAddr::new(3)), Op::PushTrue, Op::End, Op::PushFalse, Op::End],
            vec![]
        ),
        Expr::Bool(false)
    );
}

#[test]
fn running_off_the_code_is_an_error() {
    assert_eq!(error_of(vec![Op::PushTrue]), RuntimeError::InvalidBytecode);
    assert_eq!(error_of(vec![]), RuntimeError::InvalidBytecode);
    assert_eq!(error_of(vec![Op::Jump(JumpAddr::new(9))]), RuntimeError::InvalidBytecode);
    assert_eq!(error_of(vec![Op::Bail]), RuntimeError::InvalidBytecode);
    assert_eq!(
        error_of(vec![Op::CaptureValue(UpValueOrigin::Parent(LocalId::new(0))), Op::End]),
        RuntimeError::InvalidBytecode
    );
}

#[test]
fn environment_variables_are_loaded_and_stored() {
    let mut env = Env::new();
    let x = env.intern_var("x");
    env.set_var(x, num(5.0)).unwrap();
    let y = env.intern_var("y");
    let closure = closure_of(
        &mut env,
        plain(
            vec![
                Op::LoadEnvVar(x),
                // The store leaves the value on the stack.
                Op::StoreEnvVar(y),
                Op::End,
            ],
            vec![],
        ),
    );
    match eval(&mut Vm::new(), &mut env, closure, 100) {
        Outcome::Done(value) => assert_eq!(value, num(5.0)),
        other => panic!("unexpected outcome {other:?}"),
    }
    assert_eq!(env.get_var(y), Some(&num(5.0)));
    assert_eq!(env.get_var(x), Some(&num(5.0)));
}

#[test]
fn a_variable_without_a_slot_cannot_be_loaded_or_stored() {
    assert_eq!(
        error_of(vec![Op::LoadEnvVar(SymbolId::new(0)), Op::End]),
        RuntimeError::UndefinedVariable
    );
    assert_eq!(
        error_of(vec![Op::PushTrue, Op::StoreEnvVar(SymbolId::new(0)), Op::End]),
        RuntimeError::UndeclaredVariable
    );
}

#[test]
fn locals_are_loaded_and_stored_relative_to_the_frame() {
    let mut env = Env::new();
    // Two arguments and one further local.
    let proc = Proc::assemble(
        vec![
            Op::LoadLocalVar(LocalId::new(1)),
            Op::StoreLocalVar(LocalId::new(2)),
            Op::Pop,
            Op::LoadLocalVar(LocalId::new(2)),
            Op::Return,
        ],
        Signature::new(2, false),
        vec![],
        1,
        0,
    );
    let closure = closure_of(&mut env, proc);
    let args = vec![num(10.0), num(20.0)];
    match call(&mut Vm::new(), &mut env, closure, &args, 100) {
        Outcome::Done(value) => assert_eq!(value, num(20.0)),
        other => panic!("unexpected outcome {other:?}"),
    }
}

#[test]
fn a_local_outside_the_stack_loads_void_and_cannot_be_stored() {
    assert!(matches!(
        value_of(vec![Op::LoadLocalVar(LocalId::new(200)), Op::End], vec![]),
        Expr::Void
    ));
    assert_eq!(
        error_of(vec![Op::PushTrue, Op::StoreLocalVar(LocalId::new(200)), Op::End]),
        RuntimeError::InvalidBytecode
    );
}

#[test]
fn calls_want_the_callee_below_the_arguments() {
    // The stack holds the closure of the program and one value.
    assert_eq!(
        error_of(vec![Op::PushTrue, Op::CallClosure { arity: 2 }]),
        RuntimeError::StackUnderflow
    );
    // With one argument the callee is the program itself, which takes none.
    assert_eq!(
        error_of(vec![Op::PushTrue, Op::CallClosure { arity: 1 }]),
        RuntimeError::WrongArity
    );
    assert_eq!(
        error_of(vec![Op::CallNative { arity: 2 }]),
        RuntimeError::StackUnderflow
    );
    assert_eq!(
        error_of(vec![Op::PushTrue, Op::PushTrue, Op::CallClosure { arity: 1 }]),
        RuntimeError::InvalidCallable
    );
    assert_eq!(
        error_of(vec![Op::PushTrue, Op::PushTrue, Op::CallNative { arity: 1 }]),
        RuntimeError::InvalidCallable
    );
}

#[test]
fn call_closure_does_not_call_native_functions() {
    let mut env = Env::new();
    let f = env.bind_native_func("f", NativeFunc(40)).unwrap();
    let closure = closure_of(
        &mut env,
        plain(vec![Op::LoadEnvVar(f), Op::CallClosure { arity: 0 }, Op::End], vec![]),
    );
    match eval(&mut Vm::new(), &mut env, closure, 100) {
        Outcome::Failed(Error::Runtime(kind)) => assert_eq!(kind, RuntimeError::InvalidCallable),
        other => panic!("unexpected outcome {other:?}"),
    }
}

#[test]
fn a_call_runs_the_closure_and_returns_its_value() {
    let mut env = Env::new();
    // The callee returns its second argument.
    let callee = env.add_procedure(Proc::assemble(
        vec![Op::LoadLocalVar(LocalId::new(1)), Op::Return],
        Signature::new(2, false),
        vec![],
        0,
        0,
    ));
    for call_op in [Op::CallClosure { arity: 2 }, Op::CallNative { arity: 2 }] {
        let closure = closure_of(
            &mut env,
            plain(
                vec![
                    Op::PushNil,
                    Op::CreateClosure(callee),
                    Op::PushTrue,
                    Op::PushFalse,
                    call_op,
                    // The result has taken the place of the callee and its arguments.
                    Op::Pop,
                    Op::End,
                ],
                vec![],
            ),
        );
        match eval(&mut Vm::new(), &mut env, closure, 100) {
            Outcome::Done(value) => assert!(matches!(value, Expr::Nil)),
            other => panic!("unexpected outcome {other:?}"),
        }
    }
}

#[test]
fn create_closure_wants_a_procedure_and_its_captures() {
    assert_eq!(
        error_of(vec![Op::CreateClosure(ProcId::new(5)), Op::End]),
        RuntimeError::InvalidBytecode
    );
    let mut env = Env::new();
    let inner = env.add_procedure(Proc::assemble(
        vec![Op::LoadUpValue(UpValueId::new(0)), Op::Return],
        Signature::empty(),
        vec![],
        0,
        1,
    ));
    // The capture is missing.
    let closure = closure_of(&mut env, plain(vec![Op::CreateClosure(inner), Op::End], vec![]));
    match eval(&mut Vm::new(), &mut env, closure, 100) {
        Outcome::Failed(Error::Runtime(kind)) => assert_eq!(kind, RuntimeError::InvalidBytecode),
        other => panic!("unexpected outcome {other:?}"),
    }
    // The closure that runs has no up-value to hand on.
    let closure = closure_of(
        &mut env,
        plain(
            vec![
                Op::CreateClosure(inner),
                Op::CaptureValue(UpValueOrigin::Outer(UpValueId::new(0))),
                Op::End,
            ],
            vec![],
        ),
    );
    match eval(&mut Vm::new(), &mut env, closure, 100) {
        Outcome::Failed(Error::Runtime(kind)) => assert_eq!(kind, RuntimeError::InvalidBytecode),
        other => panic!("unexpected outcome {other:?}"),
    }
}

#[test]
fn an_open_up_value_is_the_local_and_a_closed_one_keeps_its_value() {
    let mut env = Env::new();
    // The inner procedure stores its argument in the captured variable
    // and returns what the variable held before.
    let inner = env.add_procedure(Proc::assemble(
        vec![
            Op::LoadUpValue(UpValueId::new(0)),
            Op::LoadLocalVar(LocalId::new(0)),
            Op::StoreUpValue(UpValueId::new(0)),
            Op::Pop,
            Op::Return,
        ],
        Signature::new(1, false),
        vec![],
        0,
        1,
    ));
    // The outer procedure captures its argument, calls the inner closure
    // while its own frame is alive, and returns the inner closure.
    let outer = env.add_procedure(Proc::assemble(
        vec![
            Op::CreateClosure(inner),
            Op::CaptureValue(UpValueOrigin::Parent(LocalId::new(0))),
            Op::StoreLocalVar(LocalId::new(1)),
            Op::PushConstant(ConstantId::new(0)),
            Op::CallClosure { arity: 1 },
            // The call returned the old value of the argument: keep it.
            Op::StoreLocalVar(LocalId::new(2)),
            Op::Pop,
            Op::LoadLocalVar(LocalId::new(1)),
            Op::Return,
        ],
        Signature::new(1, false),
        vec![num(2.0)],
        2,
        0,
    ));
    let outer_closure = env.alloc_closure(Closure::new(outer));
    let args = vec![num(1.0)];
    let inner_closure = match call(&mut Vm::new(), &mut env, outer_closure, &args, 100) {
        Outcome::Done(Expr::Closure(id)) => id,
        other => panic!("unexpected outcome {other:?}"),
    };
    // The frame has gone: the cell is closed and holds what the inner call stored.
    let cell = env.closure(inner_closure).unwrap().up_value(0).unwrap();
    assert_eq!(cell, CellId(0));
    match env.cell(cell) {
        Some(UpValue::Closed(value)) => assert_eq!(*value, num(2.0)),
        other => panic!("unexpected cell {other:?}"),
    }
    // A later call sees that value and stores another.
    let args = vec![num(3.0)];
    match call(&mut Vm::new(), &mut env, inner_closure, &args, 100) {
        Outcome::Done(value) => assert_eq!(value, num(2.0)),
        other => panic!("unexpected outcome {other:?}"),
    }
    match env.cell(cell) {
        Some(UpValue::Closed(value)) => assert_eq!(*value, num(3.0)),
        other => panic!("unexpected cell {other:?}"),
    }
}

#[test]
fn an_up_value_that_the_closure_does_not_have_is_an_error() {
    assert_eq!(
        error_of(vec![Op::LoadUpValue(UpValueId::new(0)), Op::End]),
        RuntimeError::InvalidBytecode
    );
    assert_eq!(
        error_of(vec![Op::PushTrue, Op::StoreUpValue(UpValueId::new(0)), Op::End]),
        RuntimeError::InvalidBytecode
    );
    // A closure whose cell is not on the heap.
    let mut env = Env::new();
    let proc = env.add_procedure(plain(vec![Op::LoadUpValue(UpValueId::new(0)), Op::End], vec![]));
    let closure = env.alloc_closure(Closure::with_up_values(proc, vec![CellId(7)]));
    match eval(&mut Vm::new(), &mut env, closure, 100) {
        Outcome::Failed(Error::Runtime(kind)) => assert_eq!(kind, RuntimeError::InvalidBytecode),
        other => panic!("unexpected outcome {other:?}"),
    }
}

#[test]
fn a_closure_that_is_not_on_the_heap_cannot_be_run() {
    let mut env = Env::new();
    let mut vm = Vm::new();
    match eval(&mut vm, &mut env, ClosureId(3), 100) {
        Outcome::Failed(Error::Runtime(kind)) => assert_eq!(kind, RuntimeError::InvalidCallable),
        other => panic!("unexpected outcome {other:?}"),
    }
    assert!(vm.is_idle());
    // Nor can a closure of a procedure that the environment does not have.
    let closure = env.alloc_closure(Closure::new(ProcId::new(9)));
    match eval(&mut vm, &mut env, closure, 100) {
        Outcome::Failed(Error::Runtime(kind)) => assert_eq!(kind, RuntimeError::InvalidCallable),
        other => panic!("unexpected outcome {other:?}"),
    }
}

#[test]
fn a_failure_puts_the_machine_back_at_rest() {
    let mut env = Env::new();
    let bad = closure_of(&mut env, plain(vec![Op::PushTrue, Op::PushTrue, Op::Bail], vec![]));
    let good = closure_of(&mut env, plain(vec![Op::PushTrue, Op::End], vec![]));
    let mut vm = Vm::new();
    assert!(matches!(eval(&mut vm, &mut env, bad, 100), Outcome::Failed(_)));
    assert!(vm.is_idle());
    match eval(&mut vm, &mut env, good, 100) {
        Outcome::Done(value) => assert_eq!(value, Expr::Bool(true)),
        other => panic!("unexpected outcome {other:?}"),
    }
}

#[test]
fn a_native_call_is_answered_by_whoever_runs_the_machine() {
    let mut env = Env::new();
    let f = env.bind_native_func("f", NativeFunc(40)).unwrap();
    let closure = closure_of(
        &mut env,
        plain(
            vec![
                Op::PushNil,
                Op::LoadEnvVar(f),
                Op::PushTrue,
                Op::PushFalse,
                Op::CallNative { arity: 2 },
                Op::End,
            ],
            vec![],
        ),
    );
    let mut vm = Vm::new();
    match eval(&mut vm, &mut env, closure, 100) {
        Outcome::Native { func, args } => {
            assert_eq!(func, NativeFunc(40));
            assert_eq!(args, vec![Expr::Bool(true), Expr::Bool(false)]);
        }
        other => panic!("unexpected outcome {other:?}"),
    }
    assert!(!vm.is_idle());
    // A machine that waits for an answer does not just go on.
    match proceed(&mut vm, &mut env, 100) {
        Outcome::Failed(Error::Runtime(kind)) => assert_eq!(kind, RuntimeError::NotSuspended),
        other => panic!("unexpected outcome {other:?}"),
    }
    assert!(vm.is_idle());
    let mut vm = Vm::new();
    assert!(matches!(eval(&mut vm, &mut env, closure, 100), Outcome::Native { .. }));
    match resume(&mut vm, &mut env, num(9.0), 100) {
        Outcome::Done(value) => assert_eq!(value, num(9.0)),
        other => panic!("unexpected outcome {other:?}"),
    }
    assert!(vm.is_idle());
}

#[test]
fn surplus_arguments_of_a_variadic_procedure_become_a_list() {
    let mut env = Env::new();
    let proc = Proc::assemble(
        vec![Op::LoadLocalVar(LocalId::new(1)), Op::Return],
        Signature::new(1, true),
        vec![],
        0,
        0,
    );
    let closure = closure_of(&mut env, proc);
    let args = vec![num(1.0), num(2.0), num(3.0)];
    match call(&mut Vm::new(), &mut env, closure, &args, 100) {
        Outcome::Done(Expr::List(items)) => assert_eq!(items, vec![num(2.0), num(3.0)]),
        other => panic!("unexpected outcome {other:?}"),
    }
    let args = vec![num(1.0)];
    match call(&mut Vm::new(), &mut env, closure, &args, 100) {
        Outcome::Done(Expr::List(items)) => assert!(items.is_empty()),
        other => panic!("unexpected outcome {other:?}"),
    }
    match call(&mut Vm::new(), &mut env, closure, &vec![], 100) {
        Outcome::Failed(Error::Runtime(kind)) => assert_eq!(kind, RuntimeError::WrongArity),
        other => panic!("unexpected outcome {other:?}"),
    }
}

#[test]
fn each_instruction_costs_one_step() {
    let mut env = Env::new();
    let closure = closure_of(
        &mut env,
        plain(vec![Op::PushNil, Op::Pop, Op::PushTrue, Op::End], vec![]),
    );
    for fuel in 0..4 {
        let mut vm = Vm::new();
        assert!(matches!(eval(&mut vm, &mut env, closure, fuel), Outcome::Paused));
        assert!(matches!(proceed(&mut vm, &mut env, 4 - fuel), Outcome::Done(_)));
    }
    assert!(matches!(eval(&mut Vm::new(), &mut env, closure, 4), Outcome::Done(_)));
}
