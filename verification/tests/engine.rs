//! The whole pipeline: parse, compile, run.  The host part, which reads
//! and folds numbers, is played by the helpers at the top.
use scheme_engine::corelib::{assert_eq_numbers, call_builtin, ArithOp, CompareOp, Reply};
use scheme_engine::error::{CompileError, Error, Feature, ParseError, RuntimeError};
use scheme_engine::expr::NativeFunc;
use scheme_engine::opcode::{
    ConstantId, JumpAddr, LocalId, Op, ProcId, SymbolId, UpValueId, UpValueOrigin,
};
use scheme_engine::repr::Piece;
use scheme_engine::{
    call, compile, eval, new_env, number_atoms, parse, proceed, resume, tokenize, ClosureId, Env,
    Expr, Outcome, Vm,
};

fn num(value: f64) -> Expr {
    Expr::Number(value.to_bits())
}

/// The items of a list value.
fn items_of(value: &Expr) -> Vec<Expr> {
    match value {
        Expr::List(items) => items.clone(),
        other => panic!("expected a list, got {other:?}"),
    }
}

fn read(source: &str, is_sequence: bool) -> Result<Expr, Error> {
    let tokens = tokenize(source);
    let numbers: Vec<Option<u64>> = number_atoms(source, &tokens)
        .iter()
        .map(|span| source[span.as_range()].parse::<f64>().ok().map(f64::to_bits))
        .collect();
    parse(source, &numbers, is_sequence)
}

fn render(pieces: &[Piece]) -> String {
    let mut text = String::new();
    for piece in pieces {
        match piece {
            Piece::Char(c) => text.push(*c),
            Piece::Number(bits) => text.push_str(&format!("{}", f64::from_bits(*bits))),
        }
    }
    text
}

fn answer(reply: Reply, output: &mut String) -> Result<Expr, Error> {
    match reply {
        Reply::Value(value) => Ok(value),
        Reply::Error(error) => Err(error),
        Reply::Arith { op, start, operands } => {
            let mut acc = f64::from_bits(start);
            for bits in operands {
                let x = f64::from_bits(bits);
                match op {
                    ArithOp::Add => acc += x,
                    ArithOp::Sub => acc -= x,
                    ArithOp::Mul => acc *= x,
                }
            }
            Ok(num(acc))
        }
        Reply::Compare { relation, operands } => {
            let holds = operands.windows(2).all(|pair| {
                let (a, b) = (f64::from_bits(pair[0]), f64::from_bits(pair[1]));
                match relation {
                    CompareOp::Eq => a == b,
                    CompareOp::Lt => a < b,
                    CompareOp::Gt => a > b,
                    CompareOp::LtEq => a <= b,
                    CompareOp::GtEq => a >= b,
                }
            });
            Ok(Expr::Bool(holds))
        }
        Reply::Equal { left, right } => {
            assert_eq_numbers(left, right, f64::from_bits(left) == f64::from_bits(right))
        }
        Reply::Display(pieces) => {
            output.push_str(&render(&pieces));
            Ok(Expr::Void)
        }
        Reply::Newline => {
            output.push('\n');
            Ok(Expr::Void)
        }
        Reply::Unknown => Err(Error::Runtime(RuntimeError::InvalidCallable)),
    }
}

fn drive(vm: &mut Vm, env: &mut Env, first: Outcome, output: &mut String) -> Result<Expr, Error> {
    let mut outcome = first;
    loop {
        outcome = match outcome {
            Outcome::Done(value) => return Ok(value),
            Outcome::Failed(error) => return Err(error),
            Outcome::Paused => proceed(vm, env, 1_000),
            Outcome::Native { func, args } => match answer(call_builtin(func, &args), output) {
                Ok(value) => resume(vm, env, value, 1_000),
                Err(error) => {
                    vm.reset();
                    return Err(error);
                }
            },
        };
    }
}

fn run_in(env: &mut Env, source: &str) -> Result<Expr, Error> {
    let expr = read(source, true)?;
    let closure = compile(env, &expr)?;
    let mut vm = Vm::new();
    let mut output = String::new();
    let first = eval(&mut vm, env, closure, 1_000);
    drive(&mut vm, env, first, &mut output)
}

fn run(source: &str) -> Result<Expr, Error> {
    let mut env = new_env().expect("core environment");
    run_in(&mut env, source)
}

fn run_with_output(source: &str) -> (Result<Expr, Error>, String) {
    let mut env = new_env().expect("core environment");
    let expr = read(source, true).expect("parse");
    let closure = compile(&mut env, &expr).expect("compile");
    let mut vm = Vm::new();
    let mut output = String::new();
    let first = eval(&mut vm, &mut env, closure, 1_000);
    let result = drive(&mut vm, &mut env, first, &mut output);
    (result, output)
}

fn call_in(env: &mut Env, closure: ClosureId, args: &Vec<Expr>) -> Result<Expr, Error> {
    let mut vm = Vm::new();
    let mut output = String::new();
    let first = call(&mut vm, env, closure, args, 1_000);
    drive(&mut vm, env, first, &mut output)
}

const FIB: &str = "(define fib (lambda (n) (if (<= n 1) n (+ (fib (- n 1)) (fib (- n 2))))))";

// ---------------------------------------------------------------------------
// Scenarios

#[test]
fn top_level_arithmetic() {
    assert_eq!(run("(+ 1 2 3)").unwrap(), num(6.0));
}

#[test]
fn definition_and_reference() {
    assert_eq!(run("(define x 42) x").unwrap(), num(42.0));
}

#[test]
fn test_lambda_call() {
    let source =
        r"(define add-self (lambda (x) (+ x x))) (add-self 7) (assert (= (add-self 7) 14))";

    let mut env = new_env().expect("create core environment");
    let expr = read(source, true).expect("parse");
    let closure = compile(&mut env, &expr).expect("compile");
    println!("Top-level Closure: {closure:?}");

    let mut vm = Vm::new();
    let mut output = String::new();
    let first = eval(&mut vm, &mut env, closure, 1_000);
    let value = drive(&mut vm, &mut env, first, &mut output).expect("evaluation");
    // The last form is the assertion, whose value is that of its test.
    assert_eq!(value, Expr::Bool(true));
    // The call before it gives the number.
    assert_eq!(run_in(&mut env, "(add-self 7)").expect("evaluation"), num(14.0));

    assert_eq!(
        env.resolve_var("x"),
        None,
        "lambda local leaked to global env"
    );
}

#[test]
fn lambda_application_without_capture() {
    let mut env = new_env().unwrap();
    let value = run_in(&mut env, "(define add-self (lambda (x) (+ x x))) (add-self 7)").unwrap();
    assert_eq!(value, num(14.0));
    assert_eq!(env.resolve_var("x"), None);
    assert!(env.resolve_var("add-self").is_some());
}

#[test]
fn closure_capture() {
    let source = "(define make-adder (lambda (n) (lambda (x) (+ x n)))) \
                  (define add5 (make-adder 5)) (add5 10)";
    assert_eq!(run(source).unwrap(), num(15.0));
}

#[test]
fn recursive_closure_fibonacci() {
    let source = format!("{FIB} (fib 8)");
    assert_eq!(run(&source).unwrap(), num(21.0));
}

#[test]
fn assertion_failure_carries_the_message() {
    match run("(assert (= 1 2) \"nope\")") {
        Err(Error::Assertion(message)) => assert!(message.contains("nope")),
        other => panic!("expected an assertion error, got {other:?}"),
    }
}

// ---------------------------------------------------------------------------
// The tests of the embedding interface

#[test]
fn test_call_closure() {
    let mut env = new_env().unwrap();
    // Run program to define variables.
    run_in(&mut env, FIB).expect("evaluating top-level fibonacci program");

    println!(
        "fib -> {:?}",
        env.lookup_var("fib").expect("variable 'fib' not found")
    );

    let fibonacci = env
        .lookup_var("fib")
        .expect("variable 'fib' not found")
        .as_closure()
        .expect("variable is not a closure");
    let args: Vec<Expr> = vec![num(8.0)];

    let value = call_in(&mut env, fibonacci, &args).unwrap();
    assert_eq!(value.as_number(), Some(21.0f64.to_bits()));
}

#[test]
fn test_fibonacci_sequence() {
    let source = format!(
        "{FIB} (assert-eq (fib 0) 0) (assert-eq (fib 1) 1) (assert-eq (fib 2) 1) \
         (assert-eq (fib 3) 2) (assert-eq (fib 10) 55)"
    );
    run(&source).expect("fibonacci sequence failed");
}

#[test]
fn test_booleans() {
    let source = "(assert (boolean? #t)) (assert (boolean? #f)) (assert (not (boolean? 1))) \
                  (assert (not #f)) (assert (not (not #t))) (assert (and #t #t)) \
                  (assert (not (and #t #f))) (assert-eq (and 1 2) 2) (and)";
    let value = run(source).expect("evaluation");
    println!("Result value: {:?}", value);
    assert_eq!(value, Expr::Bool(true));
}

#[test]
fn test_conditionals() {
    let source = "(assert-eq (if #t 1 2) 1) (assert-eq (if #f 1 2) 2) (assert-eq (if 0 1 2) 1) \
                  (assert-eq (if (< 1 2) (if (> 1 2) 10 20) 30) 20) (if #f 1)";
    let value = run(source).expect("evaluation");
    println!("Result value: {:?}", value);
    assert!(matches!(value, Expr::Void));
}

#[test]
fn test_language_test_numbers() {
    let source = "(assert (number? 1)) (assert (not (number? #t))) (assert-eq (+ 1 2) 3) \
                  (assert-eq (- 10 3 2) 5) (assert-eq (* 2 3 4) 24) (assert (= 2 2 2)) \
                  (assert (< 1 2 3)) (assert (not (< 1 3 2))) (assert (>= 3 3 2)) (* 1.5 2)";
    let value = run(source).expect("evaluation");
    println!("Result value: {:?}", value);
    assert_eq!(value, num(3.0));
}

#[test]
fn test_define() {
    let mut env = new_env().unwrap();
    let _ = run_in(&mut env, "(define x 42)").expect("evaluation");

    let symbol_x = env.resolve_var("x").unwrap();
    let x = env.get_var(symbol_x).cloned().unwrap();
    assert_eq!(x, num(42.0));
}

#[test]
fn test_lambda() {
    let source = "(define id (lambda (x) x)) (assert-eq (id 3) 3) \
                  (define (twice f x) (f (f x))) (define (inc x) (+ x 1)) \
                  (assert-eq (twice inc 5) 7) \
                  (define (count . items) items) (count 1 2 3)";
    let value = run(source).expect("evaluation");
    assert_eq!(items_of(&value), vec![num(1.0), num(2.0), num(3.0)]);
}

#[test]
fn test_add() {
    let expr = read("(+ 1 2)\n(+ 1.5 2.5 (+ 3 4))\n", true).expect("parse failed");
    let mut env = Env::new();
    scheme_engine::init_core(&mut env).expect("init core");
    compile(&mut env, &expr).expect("compile failed");
}

// ---------------------------------------------------------------------------
// The parser

#[test]
fn parser_test_numbers() {
    let expr = read("(1 2 (3 4) (5 (6 7 8)))", false).expect("parse failed");
    println!("{:#?}", expr);

    let list1 = expr.as_slice().unwrap();
    assert_eq!(list1[0], num(1.0));
    assert_eq!(list1[1], num(2.0));

    let list2 = list1[2].as_slice().unwrap();
    assert_eq!(list2[0], num(3.0));
    assert_eq!(list2[1], num(4.0));

    let list3 = list1[3].as_slice().unwrap();
    assert_eq!(list3[0], num(5.0));

    let list4 = list3[1].as_slice().unwrap();
    assert_eq!(list4[0], num(6.0));
    assert_eq!(list4[1], num(7.0));
    assert_eq!(list4[2], num(8.0));
}

#[test]
fn test_boolean() {
    let expr = read("(#t #f)", false).expect("parse failed");
    assert!(matches!(expr, Expr::List(_)));

    let list = expr.as_slice().unwrap();
    assert_eq!(list[0], Expr::Bool(true));
    assert_eq!(list[1], Expr::Bool(false));
}

#[test]
fn test_sequence() {
    let source = r#"
        (one 1)
        (two 2)
        (three 3)
        "#;

    let expr = read(source, true).expect("parse failed");
    assert!(matches!(expr, Expr::Sequence(_)));
    assert_eq!(expr.as_sequence().unwrap().len(), 3);
}

#[test]
fn atoms_parse_by_their_first_character() {
    let expr = read("(x + <= #t #f #void \"text\" . 'y 1.5)", false).unwrap();
    let items = expr.as_slice().unwrap();
    assert_eq!(items[0].as_ident(), Some("x"));
    assert_eq!(items[1].as_ident(), Some("+"));
    assert_eq!(items[2].as_ident(), Some("<="));
    assert_eq!(items[3], Expr::Bool(true));
    assert_eq!(items[4], Expr::Bool(false));
    assert!(matches!(items[5], Expr::Void));
    assert_eq!(items[6], Expr::String("text".to_string()));
    assert!(matches!(items[7], Expr::Keyword(_)));
    match &items[8] {
        Expr::Quote(inner) => assert_eq!(inner.as_ident(), Some("y")),
        other => panic!("expected a quote, got {other:?}"),
    }
    assert_eq!(items[9], num(1.5));
    assert_eq!(items.len(), 10);
}

#[test]
fn empty_list_parses_as_a_list() {
    match read("()", false).unwrap() {
        Expr::List(items) => assert!(items.is_empty()),
        other => panic!("expected a list, got {other:?}"),
    }
}

fn parse_error(source: &str, is_sequence: bool) -> ParseError {
    match read(source, is_sequence) {
        Err(Error::Parse(error)) => error,
        other => panic!("expected a parse error, got {other:?}"),
    }
}

#[test]
fn parse_errors() {
    assert_eq!(parse_error("", false), ParseError::UnexpectedEOF);
    assert_eq!(parse_error("(a b", true), ParseError::UnexpectedEOF);
    assert_eq!(parse_error(")", true), ParseError::UnexpectedRightParen);
    assert_eq!(parse_error("#q", true), ParseError::UnknownAtom);
    assert_eq!(parse_error("#", true), ParseError::UnknownAtom);
    assert_eq!(parse_error("Abc", true), ParseError::UnexpectedCharacter('A'));
    assert_eq!(parse_error("\"open", true), ParseError::UnterminatedString);
    assert_eq!(parse_error("\"", true), ParseError::UnterminatedString);
    assert_eq!(parse_error("1x", true), ParseError::InvalidNumber);
    assert_eq!(parse_error("..", true), ParseError::UnexpectedCharacter('.'));
}

#[test]
fn a_number_without_its_value_is_a_parse_error() {
    // The table of numbers is too short for the source.
    let none: Vec<Option<u64>> = Vec::new();
    assert!(matches!(
        parse("(+ 1 2)", &none, true),
        Err(Error::Parse(ParseError::InvalidNumber))
    ));
    // The numbers are taken in the order of the source.
    let numbers = vec![Some(2.0f64.to_bits()), Some(1.0f64.to_bits())];
    let expr = parse("(7 8)", &numbers, false).unwrap();
    assert_eq!(expr.as_slice().unwrap()[0], num(2.0));
    assert_eq!(expr.as_slice().unwrap()[1], num(1.0));
}

#[test]
fn an_empty_program_is_an_empty_sequence() {
    match read("  ; nothing\n", true).unwrap() {
        Expr::Sequence(items) => assert!(items.is_empty()),
        other => panic!("expected a sequence, got {other:?}"),
    }
}

// ---------------------------------------------------------------------------
// The compiler

fn compile_failure(source: &str) -> Error {
    let mut env = new_env().unwrap();
    let expr = read(source, true).expect("parse");
    match compile(&mut env, &expr) {
        Err(error) => error,
        Ok(_) => panic!("expected a compile error for {source}"),
    }
}

fn compile_kind(source: &str) -> CompileError {
    match compile_failure(source) {
        Error::Compile(kind, _) => kind,
        other => panic!("expected a compile error, got {other:?}"),
    }
}

#[test]
fn compile_errors() {
    assert_eq!(compile_kind("y"), CompileError::UnboundVariable);
    assert_eq!(compile_kind("(f 1)"), CompileError::UnboundVariable);
    assert_eq!(compile_kind("(1 2)"), CompileError::OperatorNotProcedure);
    assert_eq!(compile_kind("()"), CompileError::IllFormedExpression);
    assert_eq!(compile_kind("(define)"), CompileError::IdentifierExpected);
    assert_eq!(compile_kind("(define 1 2)"), CompileError::IllFormedSpecialForm);
    assert_eq!(compile_kind("(define () 2)"), CompileError::IllFormedSpecialForm);
    assert_eq!(compile_kind("(lambda)"), CompileError::IllFormedSpecialForm);
    assert_eq!(compile_kind("(lambda (1) 2)"), CompileError::ParameterNotIdentifier);
    assert_eq!(compile_kind("(lambda 1 2)"), CompileError::ParameterNotIdentifier);
    assert_eq!(compile_kind("(lambda (x x) x)"), CompileError::DuplicateLocal);
    assert_eq!(
        compile_kind("(lambda (x) (define y 1) (define y 2) y)"),
        CompileError::DuplicateLocal
    );
    assert_eq!(
        compile_kind("(lambda (x) (+ x 1) (define y 2) y)"),
        CompileError::DefineInBodyRest
    );
    assert_eq!(compile_kind("(if)"), CompileError::IllFormedSpecialForm);
    assert_eq!(compile_kind("(if 1 2 3 4)"), CompileError::IllFormedSpecialForm);
}

#[test]
fn unbound_variable_names_the_variable() {
    match compile_failure("(+ 1 nowhere)") {
        Error::Compile(CompileError::UnboundVariable, name) => assert_eq!(name, "nowhere"),
        other => panic!("expected an unbound variable, got {other:?}"),
    }
}

#[test]
fn reserved_forms_are_unimplemented() {
    for (source, feature) in [
        ("(let ((x 1)) x)", Feature::Let),
        ("(let* ((x 1)) x)", Feature::LetStar),
        ("(letrec ((x 1)) x)", Feature::LetRec),
        ("(fluid-let ((x 1)) x)", Feature::FluidLet),
        ("(set! x 1)", Feature::SetBang),
        ("(quote x)", Feature::Quote),
        ("(define-syntax x 1)", Feature::DefineSyntax),
        ("(lambda () (define-syntax x 1))", Feature::DefineSyntax),
        ("'x", Feature::Literal),
        ("#void", Feature::Literal),
    ] {
        match compile_failure(source) {
            Error::Unimplemented(found) => assert_eq!(found, feature, "{source}"),
            other => panic!("expected unimplemented for {source}, got {other:?}"),
        }
    }
}

fn lambda_with_params(count: usize) -> String {
    let params: Vec<String> = (0..count).map(|i| format!("p{i}")).collect();
    format!("(lambda ({}) 1)", params.join(" "))
}

fn lambda_with_locals(count: usize) -> String {
    let defines: Vec<String> = (0..count).map(|i| format!("(define v{i} {i})")).collect();
    format!("(lambda () {} 1)", defines.join(" "))
}

#[test]
fn a_procedure_with_255_locals_compiles() {
    let mut env = new_env().unwrap();
    let expr = read(&lambda_with_params(255), true).unwrap();
    assert!(compile(&mut env, &expr).is_ok());
    let expr = read(&lambda_with_locals(255), true).unwrap();
    assert!(compile(&mut env, &expr).is_ok());
}

#[test]
fn too_many_locals_is_a_compile_failure() {
    // A call passes at most 255 arguments, so the 256th parameter is refused.
    assert_eq!(compile_kind(&lambda_with_params(256)), CompileError::TooManyLocals);
    // A call frame holds 256 locals: the 257th is refused.
    let mut env = new_env().unwrap();
    let expr = read(&lambda_with_locals(256), true).unwrap();
    assert!(compile(&mut env, &expr).is_ok());
    assert_eq!(compile_kind(&lambda_with_locals(257)), CompileError::TooManyLocals);
}

#[test]
fn too_many_arguments_is_a_compile_failure() {
    let args: Vec<String> = (0..256).map(|i| format!("{i}")).collect();
    assert_eq!(
        compile_kind(&format!("(+ {})", args.join(" "))),
        CompileError::TooManyArguments
    );
    let args: Vec<String> = (0..255).map(|_| "1".to_string()).collect();
    assert_eq!(run(&format!("(+ {})", args.join(" "))).unwrap(), num(255.0));
}

#[test]
fn compiled_code_of_an_expression() {
    let mut env = new_env().unwrap();
    let expr = read("(define x (if #t 7 7)) x", true).unwrap();
    let closure = compile(&mut env, &expr).unwrap();
    let proc_id = env.closure(closure).unwrap().procedure();
    let proc = env.procedure(proc_id).unwrap();
    let x = env.resolve_var("x").unwrap();
    assert_eq!(x, SymbolId::new(17));
    assert_eq!(
        proc.bytecode(),
        &vec![
            Op::PushTrue,
            Op::JumpFalse(JumpAddr::new(5)),
            Op::Pop,
            Op::PushConstant(ConstantId::new(0)),
            Op::Jump(JumpAddr::new(7)),
            Op::Pop,
            // The two literals are one constant.
            Op::PushConstant(ConstantId::new(0)),
            Op::StoreEnvVar(x),
            Op::Pop,
            Op::PushVoid,
            Op::Pop,
            Op::LoadEnvVar(x),
            Op::End,
        ]
    );
    assert_eq!(proc.constant(0), Some(&num(7.0)));
    assert_eq!(proc.constant(1), None);
    assert_eq!(proc.signature().arity, 0);
    assert!(!proc.signature().variadic);
}

#[test]
fn a_closure_made_by_a_call_returns_what_the_call_was_given() {
    let values = vec![
        num(0.0),
        num(-2.5),
        num(f64::NAN),
        Expr::Bool(true),
        Expr::Nil,
        Expr::Void,
        Expr::String("kept".to_string()),
        Expr::List(vec![num(1.0), Expr::Bool(false)]),
    ];
    for value in values {
        let mut env = new_env().unwrap();
        let before = env.lookup_var("x").cloned();
        let maker = match run_in(&mut env, "(lambda (n) (lambda (x) n))").unwrap() {
            Expr::Closure(id) => id,
            other => panic!("expected a closure, got {other:?}"),
        };
        // Two steps of the machine make the closure, two more return the value.
        let mut vm = Vm::new();
        let closure = match call(&mut vm, &mut env, maker, &vec![value.clone()], 2) {
            Outcome::Done(Expr::Closure(id)) => id,
            other => panic!("expected a closure, got {other:?}"),
        };
        assert_ne!(closure, maker);
        for argument in [num(9.0), Expr::Bool(false), Expr::Closure(maker), Expr::Nil] {
            match call(&mut vm, &mut env, closure, &vec![argument], 2) {
                Outcome::Done(result) => assert_eq!(result, value),
                other => panic!("expected a value, got {other:?}"),
            }
        }
        // Another closure of the procedure has a value of its own.
        let other = call_in(&mut env, maker, &vec![Expr::Bool(false)]).unwrap();
        let other = other.as_closure().unwrap();
        assert_eq!(call_in(&mut env, other, &vec![Expr::Nil]).unwrap(), Expr::Bool(false));
        assert_eq!(call_in(&mut env, closure, &vec![Expr::Nil]).unwrap(), value);
        assert_eq!(env.lookup_var("x").cloned(), before);
    }
}

#[test]
fn compiled_code_of_a_captured_parameter() {
    let mut env = new_env().unwrap();
    let expr = read("(lambda (n) (lambda (x) n))", true).unwrap();
    let closure = compile(&mut env, &expr).unwrap();
    let top = env.procedure(env.closure(closure).unwrap().procedure()).unwrap();
    assert_eq!(top.bytecode(), &vec![Op::CreateClosure(ProcId::new(1)), Op::End]);
    let maker = env.procedure(ProcId::new(1)).unwrap();
    assert_eq!(maker.signature().arity, 1);
    assert!(!maker.signature().variadic);
    assert_eq!(maker.local_count(), 1);
    assert_eq!(maker.up_value_count(), 0);
    assert_eq!(maker.constant(0), None);
    assert_eq!(
        maker.bytecode(),
        &vec![
            Op::CreateClosure(ProcId::new(0)),
            Op::CaptureValue(UpValueOrigin::Parent(LocalId::new(0))),
            Op::Return,
        ]
    );
    let reader = env.procedure(ProcId::new(0)).unwrap();
    assert_eq!(reader.signature().arity, 1);
    assert!(!reader.signature().variadic);
    assert_eq!(reader.local_count(), 1);
    assert_eq!(reader.up_value_count(), 1);
    assert_eq!(reader.constant(0), None);
    assert_eq!(reader.bytecode(), &vec![Op::LoadUpValue(UpValueId::new(0)), Op::Return]);
}

#[test]
fn a_name_keeps_its_symbol_while_a_value_is_compiled() {
    let mut env = new_env().unwrap();
    let source = "(define x (lambda (a) (define b a) (define y 2) (if a b y))) x";
    let expr = read(source, true).unwrap();
    let closure = compile(&mut env, &expr).unwrap();
    let proc = env.procedure(env.closure(closure).unwrap().procedure()).unwrap();
    let x = env.resolve_var("x").unwrap();
    let code = proc.bytecode();
    let tail = &code[code.len() - 6..];
    assert_eq!(
        tail,
        &[Op::StoreEnvVar(x), Op::Pop, Op::PushVoid, Op::Pop, Op::LoadEnvVar(x), Op::End][..]
    );
    // The locals of the procedure are no names of the environment.
    assert_eq!(env.resolve_var("a"), None);
    assert_eq!(env.resolve_var("b"), None);
    assert_eq!(env.resolve_var("y"), None);
}

#[test]
fn compiled_code_of_a_closure() {
    let mut env = new_env().unwrap();
    let expr = read("(lambda (a b) (lambda (c) (lambda () (+ a c))))", true).unwrap();
    let closure = compile(&mut env, &expr).unwrap();
    let top = env.procedure(env.closure(closure).unwrap().procedure()).unwrap();
    // The procedures are numbered as they are finished: innermost first.
    assert_eq!(top.bytecode(), &vec![Op::CreateClosure(ProcId::new(2)), Op::End]);
    let outer = env.procedure(ProcId::new(2)).unwrap();
    assert_eq!(outer.signature().arity, 2);
    assert_eq!(outer.local_count(), 2);
    assert_eq!(outer.up_value_count(), 0);
    assert_eq!(
        outer.bytecode(),
        &vec![
            Op::CreateClosure(ProcId::new(1)),
            Op::CaptureValue(UpValueOrigin::Parent(LocalId::new(0))),
            Op::Return,
        ]
    );
    let middle = env.procedure(ProcId::new(1)).unwrap();
    assert_eq!(middle.up_value_count(), 1);
    assert_eq!(
        middle.bytecode(),
        &vec![
            Op::CreateClosure(ProcId::new(0)),
            Op::CaptureValue(UpValueOrigin::Outer(UpValueId::new(0))),
            Op::CaptureValue(UpValueOrigin::Parent(LocalId::new(0))),
            Op::Return,
        ]
    );
    let inner = env.procedure(ProcId::new(0)).unwrap();
    assert_eq!(inner.up_value_count(), 2);
    let plus = env.resolve_var("+").unwrap();
    assert_eq!(
        inner.bytecode(),
        &vec![
            Op::LoadEnvVar(plus),
            Op::LoadUpValue(UpValueId::new(0)),
            Op::LoadUpValue(UpValueId::new(1)),
            Op::CallNative { arity: 2 },
            Op::Return,
        ]
    );
}

#[test]
fn a_failed_compile_keeps_the_names_it_interned() {
    let mut env = new_env().unwrap();
    let expr = read("(define fresh (nowhere))", true).unwrap();
    assert!(compile(&mut env, &expr).is_err());
    assert!(env.resolve_var("fresh").is_some());
}

// ---------------------------------------------------------------------------
// The virtual machine

fn runtime_error(source: &str) -> RuntimeError {
    match run(source) {
        Err(Error::Runtime(kind)) => kind,
        other => panic!("expected a runtime error for {source}, got {other:?}"),
    }
}

#[test]
fn wrong_arity_is_a_runtime_error() {
    assert_eq!(runtime_error("(define (f a b) a) (f 1)"), RuntimeError::WrongArity);
    assert_eq!(runtime_error("(define (f a b) a) (f 1 2 3)"), RuntimeError::WrongArity);
    assert_eq!(runtime_error("(define (f) 1) (f 1)"), RuntimeError::WrongArity);
    assert_eq!(runtime_error("(define (f a . rest) a) (f)"), RuntimeError::WrongArity);
    assert_eq!(run("(define (f a b) a) (f 1 2)").unwrap(), num(1.0));
    assert_eq!(items_of(&run("(define (f a . rest) rest) (f 1)").unwrap()), vec![]);
    assert_eq!(
        items_of(&run("(define (f a . rest) rest) (f 1 2 3)").unwrap()),
        vec![num(2.0), num(3.0)]
    );
    assert_eq!(
        items_of(&run("(define f (lambda all all)) (f 1 2)").unwrap()),
        vec![num(1.0), num(2.0)]
    );
}

#[test]
fn call_checks_the_number_of_arguments() {
    let mut env = new_env().unwrap();
    run_in(&mut env, "(define (pick a b) b)").unwrap();
    let pick = env.lookup_var("pick").unwrap().as_closure().unwrap();
    for count in 0..5 {
        let args: Vec<Expr> = (0..count).map(|i| num(i as f64)).collect();
        let result = call_in(&mut env, pick, &args);
        if count == 2 {
            assert_eq!(result.unwrap(), num(1.0));
        } else {
            assert!(matches!(result, Err(Error::Runtime(RuntimeError::WrongArity))));
        }
    }
}

#[test]
fn calling_what_is_no_procedure_is_a_runtime_error() {
    assert_eq!(runtime_error("(define x 1) (x 2)"), RuntimeError::InvalidCallable);
}

#[test]
fn captured_value_outlives_its_frame() {
    let source = "(define (make-counter start) (lambda (step) (+ start step))) \
                  (define from10 (make-counter 10)) (define from20 (make-counter 20)) \
                  (assert-eq (from10 1) 11) (assert-eq (from20 1) 21) (from10 5)";
    assert_eq!(run(source).unwrap(), num(15.0));
}

#[test]
fn a_captured_parameter_keeps_its_value_after_its_frame_has_gone() {
    for k in ["0", "1.5", "42", "1e300"] {
        let mut env = new_env().unwrap();
        let source = format!("(define mk (lambda (n) (lambda (x) n))) (define f (mk {k}))");
        run_in(&mut env, &source).unwrap();
        let f = env.lookup_var("f").unwrap().as_closure().unwrap();
        let expected = num(k.parse::<f64>().unwrap());
        for argument in [num(7.0), Expr::Bool(false), Expr::Nil, Expr::List(vec![num(1.0)])] {
            // The first call and every later call give the captured value.
            assert_eq!(call_in(&mut env, f, &vec![argument.clone()]).unwrap(), expected);
            assert_eq!(call_in(&mut env, f, &vec![argument]).unwrap(), expected);
        }
        // Another closure of the same procedure has a value of its own.
        run_in(&mut env, "(define g (mk #t))").unwrap();
        let g = env.lookup_var("g").unwrap().as_closure().unwrap();
        assert_eq!(call_in(&mut env, g, &vec![num(0.0)]).unwrap(), Expr::Bool(true));
        assert_eq!(call_in(&mut env, f, &vec![num(0.0)]).unwrap(), expected);
    }
}

#[test]
fn a_definition_followed_by_its_name_gives_the_value() {
    for value in [
        "42",
        "#t",
        "\"text\"",
        "(+ 1 2 3)",
        "(if (< 1 2) 10 20)",
        "(* 4 (- 10 4))",
        "(lambda (a) a)",
        "(assert-eq 1 1)",
    ] {
        let mut env = new_env().unwrap();
        let direct = run_in(&mut env, &value).unwrap();
        let mut env = new_env().unwrap();
        let read = run_in(&mut env, &format!("(define x {value}) x")).unwrap();
        // Closures are made anew on each run: compare those by kind only.
        if matches!(direct, Expr::Closure(_)) {
            assert!(matches!(read, Expr::Closure(_)));
        } else {
            assert_eq!(read, direct, "{value}");
        }
        // Later runs against the environment see the value.
        assert_eq!(env.lookup_var("x"), Some(&read));
        assert_eq!(run_in(&mut env, "x").unwrap(), read);
    }
}

#[test]
fn the_constant_table_holds_each_value_once() {
    let mut env = new_env().unwrap();
    let expr = read("7 \"a\" 7 \"a\" 8 \"b\" 7", true).unwrap();
    let closure = compile(&mut env, &expr).unwrap();
    let proc = env.procedure(env.closure(closure).unwrap().procedure()).unwrap();
    assert_eq!(proc.constant(0), Some(&num(7.0)));
    assert_eq!(proc.constant(1), Some(&Expr::String("a".to_string())));
    assert_eq!(proc.constant(2), Some(&num(8.0)));
    assert_eq!(proc.constant(3), Some(&Expr::String("b".to_string())));
    assert_eq!(proc.constant(4), None);
}

#[test]
fn captures_pass_through_several_levels() {
    let source = "(define (f a) (lambda (b) (lambda (c) (+ a b c)))) (((f 1) 2) 3)";
    // The operator of a call has to be a name.
    assert_eq!(compile_kind(source), CompileError::OperatorNotProcedure);
    let source = "(define (f a) (lambda (b) (lambda (c) (+ a b c)))) \
                  (define g (f 1)) (define h (g 2)) (h 3)";
    assert_eq!(run(source).unwrap(), num(6.0));
}

#[test]
fn locals_of_a_body() {
    let source = "(define (f x) (define y (* x 2)) (define z (+ y 1)) (+ x y z)) (f 3)";
    assert_eq!(run(source).unwrap(), num(16.0));
}

#[test]
fn a_local_hides_a_variable_of_the_environment() {
    let source = "(define x 1) (define (f x) (+ x 1)) (assert-eq (f 10) 11) x";
    assert_eq!(run(source).unwrap(), num(1.0));
}

#[test]
fn definitions_persist_in_the_environment() {
    let mut env = new_env().unwrap();
    assert!(matches!(run_in(&mut env, "(define x 5)").unwrap(), Expr::Void));
    assert_eq!(run_in(&mut env, "(+ x 1)").unwrap(), num(6.0));
    assert!(matches!(run_in(&mut env, "(define x (+ x 1))").unwrap(), Expr::Void));
    assert_eq!(run_in(&mut env, "x").unwrap(), num(6.0));
}

#[test]
fn rerunning_a_program_gives_the_same_result() {
    let source = format!(
        "{FIB} (define (adder n) (lambda (x) (+ x n))) (define add2 (adder 2)) (add2 (fib 10))"
    );
    let first = run(&source).unwrap();
    let second = run(&source).unwrap();
    assert_eq!(first, second);
    assert_eq!(first, num(57.0));
}

#[test]
fn an_empty_program_returns_its_own_closure() {
    let mut env = new_env().unwrap();
    let expr = read("", true).unwrap();
    let closure = compile(&mut env, &expr).unwrap();
    let mut vm = Vm::new();
    match eval(&mut vm, &mut env, closure, 10) {
        Outcome::Done(Expr::Closure(id)) => assert_eq!(id, closure),
        other => panic!("unexpected outcome {other:?}"),
    }
    assert!(vm.is_idle());
}

#[test]
fn a_run_pauses_when_its_budget_is_used_up() {
    let mut env = new_env().unwrap();
    let expr = read("(if #t 1 2)", true).unwrap();
    let closure = compile(&mut env, &expr).unwrap();
    let mut vm = Vm::new();
    // PushTrue, JumpFalse, Pop, PushConstant, Jump, End.
    assert!(matches!(eval(&mut vm, &mut env, closure, 0), Outcome::Paused));
    assert!(!vm.is_idle());
    assert!(matches!(proceed(&mut vm, &mut env, 5), Outcome::Paused));
    match proceed(&mut vm, &mut env, 1) {
        Outcome::Done(value) => assert_eq!(value, num(1.0)),
        other => panic!("unexpected outcome {other:?}"),
    }
    assert!(vm.is_idle());
}

#[test]
fn a_running_machine_refuses_another_program() {
    let mut env = new_env().unwrap();
    let expr = read("(+ 1 2)", true).unwrap();
    let closure = compile(&mut env, &expr).unwrap();
    let mut vm = Vm::new();
    // The run stops at the call of `+`.
    let first = eval(&mut vm, &mut env, closure, 100);
    assert!(matches!(first, Outcome::Native { .. }));
    match eval(&mut vm, &mut env, closure, 100) {
        Outcome::Failed(Error::Runtime(kind)) => assert_eq!(kind, RuntimeError::AlreadyRunning),
        other => panic!("unexpected outcome {other:?}"),
    }
    // The first run is still there to be finished.
    let mut output = String::new();
    assert_eq!(drive(&mut vm, &mut env, first, &mut output).unwrap(), num(3.0));
}

#[test]
fn the_machine_hands_native_calls_out() {
    let mut env = new_env().unwrap();
    let expr = read("(+ 1 (* 2 3))", true).unwrap();
    let closure = compile(&mut env, &expr).unwrap();
    let mut vm = Vm::new();
    match eval(&mut vm, &mut env, closure, 100) {
        Outcome::Native { func, args } => {
            assert_eq!(func, NativeFunc(7));
            assert_eq!(args, vec![num(2.0), num(3.0)]);
        }
        other => panic!("unexpected outcome {other:?}"),
    }
    // Whatever the host answers is the value of the call.
    match resume(&mut vm, &mut env, num(100.0), 100) {
        Outcome::Native { func, args } => {
            assert_eq!(func, NativeFunc(5));
            assert_eq!(args, vec![num(1.0), num(100.0)]);
        }
        other => panic!("unexpected outcome {other:?}"),
    }
    match resume(&mut vm, &mut env, Expr::Nil, 100) {
        Outcome::Done(value) => assert!(matches!(value, Expr::Nil)),
        other => panic!("unexpected outcome {other:?}"),
    }
}

#[test]
fn resuming_a_machine_that_waits_for_nothing_fails() {
    let mut env = new_env().unwrap();
    let mut vm = Vm::new();
    match resume(&mut vm, &mut env, Expr::Nil, 10) {
        Outcome::Failed(Error::Runtime(kind)) => assert_eq!(kind, RuntimeError::NotSuspended),
        other => panic!("unexpected outcome {other:?}"),
    }
    match proceed(&mut vm, &mut env, 10) {
        Outcome::Failed(Error::Runtime(kind)) => assert_eq!(kind, RuntimeError::NotSuspended),
        other => panic!("unexpected outcome {other:?}"),
    }
}

#[test]
fn display_writes_the_text_of_values() {
    let (result, output) =
        run_with_output("(display 1.5) (newline) (display #t) (display \"hi\") (display +)");
    assert!(matches!(result.unwrap(), Expr::Void));
    assert_eq!(output, "1.5\n#thi<native-function>");
}

// ---------------------------------------------------------------------------
// The core library

#[test]
fn arithmetic_on_no_arguments() {
    assert!(matches!(run("(-)"), Err(Error::Runtime(RuntimeError::WrongArity))));
    assert_eq!(run("(+)").unwrap(), num(0.0));
    assert_eq!(run("(*)").unwrap(), num(1.0));
    assert_eq!(run("(- 5)").unwrap(), num(5.0));
}

#[test]
fn arithmetic_wants_numbers() {
    assert_eq!(runtime_error("(+ 1 #t)"), RuntimeError::WrongType);
    assert_eq!(runtime_error("(- #f)"), RuntimeError::WrongType);
    assert_eq!(runtime_error("(* 2 \"x\")"), RuntimeError::WrongType);
    assert_eq!(runtime_error("(< 1 #t)"), RuntimeError::WrongType);
    assert_eq!(runtime_error("(< 1)"), RuntimeError::WrongArity);
    assert_eq!(runtime_error("(=)"), RuntimeError::WrongArity);
}

#[test]
fn number_predicate_tells_numbers() {
    assert_eq!(run("(number? 0)").unwrap(), Expr::Bool(true));
    assert_eq!(run("(number? 1.5)").unwrap(), Expr::Bool(true));
    assert_eq!(run("(number? #t)").unwrap(), Expr::Bool(false));
    assert_eq!(run("(number? \"1\")").unwrap(), Expr::Bool(false));
    assert_eq!(run("(number? +)").unwrap(), Expr::Bool(false));
    assert_eq!(runtime_error("(number?)"), RuntimeError::WrongArity);
}

#[test]
fn assert_eq_compares_values() {
    assert_eq!(
        items_of(&run("(assert-eq 1 1)").unwrap()),
        vec![num(1.0), num(1.0)]
    );
    assert!(run("(assert-eq #t #t)").is_ok());
    assert!(run("(assert-eq \"a\" \"a\")").is_ok());
    // Every value is equal to itself: a native function, a closure, void, a list.
    assert!(run("(assert-eq + +)").is_ok());
    assert!(run("(define (f) 1) (assert-eq f f)").is_ok());
    assert!(run("(assert-eq (if #f 1) (if #f 1))").is_ok());
    assert!(run("(define (all . items) items) (assert-eq (all 1 #t) (all 1 #t))").is_ok());
    assert!(run("(assert-eq (assert-eq 1 1) (assert-eq 1 1))").is_ok());
    assert!(matches!(run("(assert-eq + -)"), Err(Error::AssertEq(_, _))));
    assert!(matches!(
        run("(define (all . items) items) (assert-eq (all 1 2) (all 1 3))"),
        Err(Error::AssertEq(_, _))
    ));
    assert!(matches!(
        run("(define (f) 1) (define (g) 1) (assert-eq f g)"),
        Err(Error::AssertEq(_, _))
    ));
    match run("(assert-eq 1 2)") {
        Err(Error::AssertEq(left, right)) => {
            assert_eq!(left, num(1.0));
            assert_eq!(right, num(2.0));
        }
        other => panic!("expected a failed assertion, got {other:?}"),
    }
    assert!(matches!(run("(assert-eq 1 #t)"), Err(Error::AssertEq(_, _))));
    assert_eq!(runtime_error("(assert-eq 1)"), RuntimeError::WrongArity);
}

#[test]
fn assert_eq_of_numbers_goes_by_their_value() {
    // Zero and minus zero are one number of two bit patterns.
    assert_eq!(
        items_of(&run("(assert-eq 0 (* 0 (- 0 1)))").unwrap()),
        vec![num(0.0), num(-0.0)]
    );
    assert_eq!(run("(= 0 (* 0 (- 0 1)))").unwrap(), Expr::Bool(true));
    // A number that is unequal to itself as a number is still the same value.
    let undefined = "(define inf (* 1e308 10)) (define n (- inf inf))";
    assert!(run(&format!("{undefined} (assert-eq n n)")).is_ok());
    assert_eq!(run(&format!("{undefined} (= n n)")).unwrap(), Expr::Bool(false));
    match run("(assert-eq 0.5 0.25)") {
        Err(Error::AssertEq(left, right)) => {
            assert_eq!(left, num(0.5));
            assert_eq!(right, num(0.25));
        }
        other => panic!("expected a failed assertion, got {other:?}"),
    }
}

#[test]
fn assert_eq_leaves_the_equality_of_numbers_to_the_host() {
    let env = new_env().unwrap();
    let func = match env.lookup_var("assert-eq") {
        Some(Expr::NativeFunc(func)) => *func,
        other => panic!("expected a native function, got {other:?}"),
    };
    let (zero, minus_zero) = (0.0f64.to_bits(), (-0.0f64).to_bits());
    match call_builtin(func, &vec![Expr::Number(zero), Expr::Number(minus_zero)]) {
        Reply::Equal { left, right } => {
            assert_eq!(left, zero);
            assert_eq!(right, minus_zero);
        }
        other => panic!("expected a question to the host, got {other:?}"),
    }
    // Numbers of one bit pattern, and values of other kinds, are decided at once.
    assert!(matches!(
        call_builtin(func, &vec![Expr::Number(zero), Expr::Number(zero)]),
        Reply::Value(_)
    ));
    assert!(matches!(
        call_builtin(func, &vec![Expr::Number(zero), Expr::Bool(false)]),
        Reply::Error(Error::AssertEq(_, _))
    ));
    assert!(matches!(
        call_builtin(func, &vec![Expr::Number(zero)]),
        Reply::Error(Error::Runtime(RuntimeError::WrongArity))
    ));
    // What the host found decides.
    assert_eq!(
        items_of(&assert_eq_numbers(zero, minus_zero, true).unwrap()),
        vec![Expr::Number(zero), Expr::Number(minus_zero)]
    );
    match assert_eq_numbers(zero, minus_zero, false) {
        Err(Error::AssertEq(left, right)) => {
            assert_eq!(left, Expr::Number(zero));
            assert_eq!(right, Expr::Number(minus_zero));
        }
        other => panic!("expected a failed assertion, got {other:?}"),
    }
}

#[test]
fn assert_returns_its_value() {
    assert_eq!(run("(assert 5)").unwrap(), num(5.0));
    assert_eq!(run("(assert #t \"fine\")").unwrap(), Expr::Bool(true));
    match run("(assert #f)") {
        Err(Error::Assertion(message)) => assert_eq!(message, "#f"),
        other => panic!("expected a failed assertion, got {other:?}"),
    }
    assert_eq!(runtime_error("(assert #f 1)"), RuntimeError::WrongType);
    assert_eq!(runtime_error("(assert)"), RuntimeError::WrongArity);
}

#[test]
fn or_is_reserved() {
    assert!(matches!(run("(or #t #f)"), Err(Error::Unimplemented(Feature::Or))));
}

#[test]
fn a_function_of_the_host_can_be_bound() {
    let mut env = new_env().unwrap();
    let symbol = env.bind_native_func("host", NativeFunc(100)).unwrap();
    assert_eq!(env.resolve_var("host"), Some(symbol));
    assert!(matches!(
        env.bind_native_func("host", NativeFunc(101)),
        Err(Error::Runtime(RuntimeError::AlreadyBound))
    ));
    let expr = read("(host 1 #t)", true).unwrap();
    let closure = compile(&mut env, &expr).unwrap();
    let mut vm = Vm::new();
    match eval(&mut vm, &mut env, closure, 100) {
        Outcome::Native { func, args } => {
            assert_eq!(func, NativeFunc(100));
            assert_eq!(args, vec![num(1.0), Expr::Bool(true)]);
            assert!(matches!(call_builtin(func, &args), Reply::Unknown));
        }
        other => panic!("unexpected outcome {other:?}"),
    }
}
