//! The environment and its symbol table.
use scheme_engine::corelib::{Builtin, BUILTIN_COUNT};
use scheme_engine::env::grow_table;
use scheme_engine::error::{Error, RuntimeError};
use scheme_engine::eval::eval_source;
use scheme_engine::expr::{CellId, ClosureId, NativeFunc, UpValue};
use scheme_engine::ext::StringExt;
use scheme_engine::opcode::{ProcId, SymbolId};
use scheme_engine::symbol::SymbolTable;
use scheme_engine::{new_env, Closure, Env, Expr};

#[test]
fn symbols_are_numbered_in_order() {
    let mut table = SymbolTable::new();
    assert_eq!(table.resolve("a"), None);
    assert_eq!(table.intern_symbol("a"), SymbolId::new(0));
    assert_eq!(table.intern_symbol("b"), SymbolId::new(1));
    assert_eq!(table.intern_symbol("a"), SymbolId::new(0));
    assert_eq!(table.resolve("b"), Some(SymbolId::new(1)));
    assert_eq!(table.resolve("c"), None);
    assert_eq!(table.len(), 2);
    assert_eq!(table.name_of(SymbolId::new(1)), Some("b"));
    assert_eq!(table.name_of(SymbolId::new(2)), None);
}

#[test]
fn equal_names_give_equal_symbols() {
    let mut table = SymbolTable::new();
    for name in ["x", "y", "x", "z", "y", "é", "x"] {
        let first = table.intern_symbol(name);
        let second = table.intern_symbol(name);
        assert_eq!(first, second);
        assert_eq!(table.name_of(first), Some(name));
    }
    assert_eq!(table.len(), 4);
}

#[test]
fn insert_unique_refuses_a_known_name() {
    let mut table = SymbolTable::new();
    assert_eq!(table.insert_unique("a"), Some(SymbolId::new(0)));
    assert_eq!(table.insert_unique("a"), None);
    assert_eq!(table.insert_unique("b"), Some(SymbolId::new(1)));
    assert_eq!(
        table.items(),
        vec![(SymbolId::new(0), "a".to_string()), (SymbolId::new(1), "b".to_string())]
    );
}

#[test]
fn a_full_table_takes_no_new_name() {
    let mut table = SymbolTable::new();
    for i in 0..65536 {
        assert_eq!(table.insert_unique(&format!("n{i}")), Some(SymbolId::new(i as u16)));
    }
    assert_eq!(table.insert_unique("more"), None);
    assert_eq!(table.len(), 65536);
    // A known name can still be interned.
    assert_eq!(table.intern_symbol("n65535"), SymbolId::new(65535));
}

#[test]
fn variables_of_an_environment() {
    let mut env = Env::new();
    assert_eq!(env.resolve_var("x"), None);
    assert!(env.lookup_var("x").is_none());
    assert!(env.can_intern_var("x"));
    let x = env.intern_var("x");
    assert_eq!(env.resolve_var("x"), Some(x));
    // A new variable holds the empty list.
    assert!(matches!(env.get_var(x), Some(Expr::Nil)));
    assert!(env.set_var(x, Expr::Bool(true)).is_ok());
    assert_eq!(env.lookup_var("x"), Some(&Expr::Bool(true)));
    assert_eq!(env.intern_var("x"), x);
    assert_eq!(env.get_var(x), Some(&Expr::Bool(true)));
    // A symbol without a slot cannot be set.
    assert!(matches!(
        env.set_var(SymbolId::new(9), Expr::Nil),
        Err(Error::Runtime(RuntimeError::UndeclaredVariable))
    ));
    assert_eq!(env.get_var(SymbolId::new(9)), None);
    assert_eq!(env.variables(), vec![(x, "x".to_string())]);
}

#[test]
fn grow_table_makes_room_up_to_an_index() {
    let mut table: Vec<Expr> = vec![Expr::Bool(true)];
    grow_table(&mut table, 0);
    assert_eq!(table.len(), 1);
    grow_table(&mut table, 3);
    assert_eq!(table.len(), 4);
    assert_eq!(table[0], Expr::Bool(true));
    assert!(table[1..].iter().all(|value| matches!(value, Expr::Nil)));
    grow_table(&mut table, 2);
    assert_eq!(table.len(), 4);
}

#[test]
fn the_heap_of_an_environment() {
    let mut env = Env::new();
    assert!(env.closure(ClosureId(0)).is_none());
    let first = env.alloc_closure(Closure::new(ProcId::new(0)));
    let second = env.alloc_closure(Closure::with_up_values(ProcId::new(1), vec![CellId(5)]));
    assert_eq!(first, ClosureId(0));
    assert_eq!(second, ClosureId(1));
    assert_eq!(env.closure(second).unwrap().procedure(), ProcId::new(1));
    assert_eq!(env.closure(second).unwrap().up_value(0), Some(CellId(5)));
    assert_eq!(env.cell_count(), 0);
    let cell = env.alloc_cell(UpValue::Open(3));
    assert_eq!(cell, CellId(0));
    assert!(matches!(env.cell(cell), Some(UpValue::Open(3))));
    let mut closed = UpValue::Open(3);
    closed.close(Expr::Bool(true));
    env.set_cell(cell, closed);
    assert!(matches!(env.cell(cell), Some(UpValue::Closed(Expr::Bool(true)))));
    assert!(env.cell(CellId(1)).is_none());
    assert!(env.procedure(ProcId::new(0)).is_none());
    assert!(env.can_add_procedure());
}

#[test]
fn the_core_library_is_bound_in_order() {
    let env = new_env().unwrap();
    for index in 0..BUILTIN_COUNT {
        let builtin = Builtin::from_index(index).unwrap();
        assert_eq!(
            env.resolve_var(builtin.name()),
            Some(SymbolId::new(index as u16))
        );
        match env.lookup_var(builtin.name()) {
            Some(Expr::NativeFunc(func)) => {
                assert_eq!(*func, NativeFunc(index as u16));
                assert_eq!(Builtin::of(*func), Some(builtin));
            }
            other => panic!("{} is bound to {other:?}", builtin.name()),
        }
    }
    assert_eq!(Builtin::from_index(BUILTIN_COUNT), None);
    let names: Vec<&str> = (0..BUILTIN_COUNT)
        .map(|i| Builtin::from_index(i).unwrap().name())
        .collect();
    assert_eq!(
        names,
        vec![
            "assert", "assert-eq", "display", "newline", "number?", "+", "-", "*", "=", "<", ">",
            "<=", ">=", "boolean?", "not", "and", "or"
        ]
    );
}

#[test]
fn the_core_library_cannot_be_bound_twice() {
    let mut env = new_env().unwrap();
    assert!(matches!(
        scheme_engine::init_core(&mut env),
        Err(Error::Runtime(RuntimeError::AlreadyBound))
    ));
    // A name that is taken stops the binding where it stands.
    let mut env = Env::new();
    env.intern_var("display");
    assert!(scheme_engine::init_core(&mut env).is_err());
    assert!(env.resolve_var("assert-eq").is_some());
    assert!(env.resolve_var("newline").is_none());
}

#[test]
fn eval_source_reports_nothing() {
    assert!(eval_source("(+ 1 2)").is_ok());
    assert!(eval_source(")(").is_ok());
    assert!(eval_source("").is_ok());
}

#[test]
fn string_extensions() {
    assert_eq!("abc".first(), Some('a'));
    assert_eq!("".first(), None);
    assert_eq!("éa".split_first_char(), Some(('é', "a")));
    assert_eq!("x".split_first_char(), Some(('x', "")));
    assert_eq!("".split_first_char(), None);
}
