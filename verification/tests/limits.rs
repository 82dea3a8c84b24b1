//! The limits of the bytecode encoding, reached with programs that are
//! built in memory.
use scheme_engine::error::{CompileError, Error};
use scheme_engine::{compile, new_env, Expr};

/// `(if #t <body> #f)` where the body is a sequence of `count` empty lists.
/// Each but the last takes two instructions, the last one.
fn conditional(count: usize) -> Expr {
    let mut body: Vec<Expr> = Vec::with_capacity(count);
    for _ in 0..count {
        body.push(Expr::Nil);
    }
    Expr::List(vec![
        Expr::Ident("if".into()),
        Expr::Bool(true),
        Expr::Sequence(body),
        Expr::Bool(false),
    ])
}

#[test]
fn a_jump_to_the_last_address_compiles() {
    let mut env = new_env().unwrap();
    // The form ends at address 2 * count + 5 = 2^24 - 1.
    let closure = compile(&mut env, &conditional(8_388_605)).unwrap();
    let proc = env.procedure(env.closure(closure).unwrap().procedure()).unwrap();
    // The instruction that ends the program follows the form.
    assert_eq!(proc.bytecode().len(), (1 << 24) - 1 + 1);
}

#[test]
fn a_jump_beyond_the_last_address_is_a_compile_error() {
    let mut env = new_env().unwrap();
    assert!(matches!(
        compile(&mut env, &conditional(8_388_606)),
        Err(Error::Compile(CompileError::JumpTooFar, _))
    ));
}
