//! A small Scheme: a single-pass compiler from s-expressions to stack
//! bytecode, and a virtual machine with closures and up-values.
//!
//! A host drives the pieces: it parses a source with [`parse`], compiles
//! the expression with [`compile`] against an environment made by
//! [`new_env`], and runs the closure with [`eval`].  The run stops when the
//! program calls a native function; the host answers the call, with the help
//! of [`corelib::call_builtin`], and goes on with [`resume`].
use vstd::prelude::*;

pub mod codegen;
pub mod compiler;
pub mod corelib;
pub mod cursor;
pub mod env;
pub mod error;
pub mod eval;
pub mod expr;
pub mod ext;
pub mod laws;
pub mod lexer;
pub mod limits;
pub mod machine;
pub mod opcode;
pub mod parser;
pub mod report;
pub mod repr;
pub mod scoping;
pub mod smol;
pub mod span;
pub mod symbol;
pub mod text;
pub mod token;
pub mod token_stream;
pub mod utils;
pub mod vm;

pub use self::compiler::compile;
pub use self::corelib::init_core;
pub use self::env::Env;
pub use self::expr::{Closure, ClosureId, Expr, Pair, Proc};
pub use self::parser::{number_atoms, parse, tokenize};
pub use self::vm::{call, eval, proceed, resume, Outcome, Vm};

verus! {

/// Create a new environment loaded with the core library.
pub fn new_env() -> (env: error::Result<Env>)
    ensures
        env matches Ok(e) && e.wf() && e@ == corelib::bound_from(env::EnvView::empty(), 0).0,
{
    let mut env = Env::new();
    proof {
        corelib::lemma_core_binds();
    }
    match init_core(&mut env) {
        Ok(()) => Ok(env),
        Err(error) => Err(error),
    }
}

} // verus!
