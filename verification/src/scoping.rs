//! What compiling an expression leaves of the names in scope: the names of
//! the environment keep their symbols, and the locals in scope before are
//! those in scope after, but for the definitions at the start of a body.
use vstd::prelude::*;

use crate::codegen::{
    add_constant, add_up_value, capture_chain, close_scope, code_len, compile_access,
    compile_args, compile_body, compile_call, compile_constant, compile_define_form,
    compile_defined, compile_defines, compile_definition, compile_expr, compile_form,
    compile_if_form, compile_lambda, compile_lambda_form, compile_sequence, declare_formals,
    declare_local, declare_params, define_finish, define_prepare, emit_captures, emitted,
    headed_by, if_begin, if_end, if_middle, in_context, lambda_enter, lambda_exit,
    local_position, open_scope, proc_at, resolve, scope_of, special_of, with_proc_at,
    CompilerView, Context, LocalView, ProcStateView, ScopeView, Special, Unit,
};
use crate::expr::{ExprView, Keyword};
use crate::limits::MAX_ARGS;
use crate::opcode::{Op, ProcId, SymbolId, UpValueOrigin};
use crate::symbol::{lemma_position, position};

verus! {

/// The names `before` stand at the same places in `after`.
pub open spec fn names_kept(before: Seq<Seq<char>>, after: Seq<Seq<char>>) -> bool {
    &&& before.len() <= after.len()
    &&& forall|i: int| 0 <= i < before.len() ==> #[trigger] after[i] == before[i]
}

/// The locals `before` stand at the same places in `after`.
pub open spec fn locals_kept(before: Seq<LocalView>, after: Seq<LocalView>) -> bool {
    &&& before.len() <= after.len()
    &&& forall|i: int| 0 <= i < before.len() ==> #[trigger] after[i] == before[i]
}

/// Names and locals are only added to.
pub open spec fn grows(before: Unit, after: Unit) -> bool {
    &&& names_kept(before.env.names, after.env.names)
    &&& locals_kept(before.c.locals, after.c.locals)
}

/// What the code of an expression leaves of the scope: the context is the
/// same, names are only added, and so are locals, which can only happen at
/// the start of a body.
pub open spec fn settled(before: Unit, after: Unit) -> bool {
    &&& grows(before, after)
    &&& after.c.context == before.c.context
    &&& before.c.context != Context::BodyStart ==> after.c.locals =~= before.c.locals
}

/// A name keeps its symbol when names are added.
pub proof fn lemma_symbol_kept(before: Seq<Seq<char>>, after: Seq<Seq<char>>, name: Seq<char>)
    requires
        names_kept(before, after),
        position(before, name) is Some,
    ensures
        position(after, name) == position(before, name),
{
    lemma_position(before, name, 0);
    lemma_position(after, name, 0);
    let at = position(before, name)->0;
    assert(after[at as int] == before[at as int]);
    match position(after, name) {
        Some(found) => {
            if found < at {
                assert(after[found as int] == before[found as int]);
            }
        },
        None => {},
    }
}

/// Interning a name keeps the names there were.
pub proof fn lemma_intern_keeps(unit: Unit, name: Seq<char>)
    ensures
        names_kept(unit.env.names, unit.env.intern(name).names),
{
}

proof fn lemma_capture_chain(c: CompilerView, level: nat, origin: UpValueOrigin)
    ensures
        capture_chain(c, level, origin).0.locals == c.locals,
        capture_chain(c, level, origin).0.context == c.context,
        capture_chain(c, level, origin).0.depth == c.depth,
    decreases c.depth + 1 - level,
{
    reveal(capture_chain);
    if level <= c.depth {
        let (proc, index) = add_up_value(proc_at(c, level), origin);
        let next = with_proc_at(c, level, proc);
        match index {
            Some(id) => {
                if level != c.depth {
                    lemma_capture_chain(next, level + 1, UpValueOrigin::Outer(id));
                }
            },
            None => {},
        }
    }
}

proof fn lemma_access(unit: Unit, name: Seq<char>)
    ensures
        compile_access(unit, name).error is None ==> settled(unit, compile_access(unit, name).unit),
{
    reveal(compile_access);
    reveal(resolve);
    let c = unit.c;
    match local_position(c.locals, name, c.locals.len()) {
        Some(index) => {
            let local = c.locals[index as int];
            lemma_capture_chain(c, local.depth + 1, UpValueOrigin::Parent(local.id));
        },
        None => {},
    }
}

proof fn lemma_constant(unit: Unit, value: ExprView)
    ensures
        compile_constant(unit, value).error is None ==> settled(
            unit,
            compile_constant(unit, value).unit,
        ),
{
    reveal(compile_constant);
    reveal(add_constant);
}

proof fn lemma_declare_local(c: CompilerView, name: Seq<char>)
    ensures
        match declare_local(c, name) {
            Ok((next, _)) => locals_kept(c.locals, next.locals) && next.context == c.context,
            Err(_) => true,
        },
{
    reveal(declare_local);
}

proof fn lemma_declare_params(c: CompilerView, params: Seq<ExprView>, from: nat)
    ensures
        match declare_params(c, params, from) {
            Ok(next) => locals_kept(c.locals, next.locals) && next.context == c.context,
            Err(_) => true,
        },
    decreases params.len() - from,
{
    reveal(declare_params);
    if from < params.len() {
        match params[from as int] {
            ExprView::Ident(name) => {
                lemma_declare_local(c, name);
                match declare_local(c, name) {
                    Ok((next, _)) => {
                        if !c.proc.variadic && c.proc.arity < MAX_ARGS {
                            let counted = CompilerView {
                                proc: ProcStateView { arity: c.proc.arity + 1, ..next.proc },
                                ..next
                            };
                            lemma_declare_params(counted, params, from + 1);
                        }
                    },
                    Err(_) => {},
                }
            },
            ExprView::Keyword(Keyword::Dot) => {
                let variadic = CompilerView {
                    proc: ProcStateView { variadic: true, ..c.proc },
                    ..c
                };
                lemma_declare_params(variadic, params, from + 1);
            },
            _ => {},
        }
    }
}

proof fn lemma_lambda_enter(unit: Unit, formals: ExprView, skip: nat)
    ensures
        match lambda_enter(unit, formals, skip) {
            Ok(inner) => inner.env == unit.env && locals_kept(unit.c.locals, inner.c.locals),
            Err(_) => true,
        },
{
    reveal(lambda_enter);
    reveal(declare_formals);
    let opened = open_scope(unit.c);
    match formals {
        ExprView::Ident(name) => {
            lemma_declare_local(
                CompilerView { proc: ProcStateView { variadic: true, ..opened.proc }, ..opened },
                name,
            );
        },
        ExprView::List(params) => {
            lemma_declare_params(opened, params, skip);
        },
        _ => {},
    }
}

proof fn lemma_emit_captures(c: CompilerView, origins: Seq<UpValueOrigin>, from: nat)
    ensures
        emit_captures(c, origins, from).locals == c.locals,
        emit_captures(c, origins, from).context == c.context,
    decreases origins.len() - from,
{
    reveal(emit_captures);
    if from < origins.len() {
        lemma_emit_captures(c.emit(Op::CaptureValue(origins[from as int])), origins, from + 1);
    }
}

proof fn lemma_lambda_exit(saved: ScopeView, unit: Unit)
    ensures
        lambda_exit(saved, unit).error is None ==> {
            let after = lambda_exit(saved, unit).unit;
            &&& after.env.names == unit.env.names
            &&& after.c.context == saved.context
            &&& after.c.locals == unit.c.locals.subrange(0, saved.locals as int)
        },
{
    reveal(lambda_exit);
    let finished = unit.c.emit(Op::Return);
    lemma_emit_captures(
        close_scope(finished, saved).emit(
            Op::CreateClosure(ProcId(unit.env.procedures.len() as u16)),
        ),
        finished.proc.up_values,
        0,
    );
}

proof fn lemma_define_finish(context: Context, symbol: Option<SymbolId>, unit: Unit, name: Seq<char>)
    requires
        unit.c.context == context,
    ensures
        define_finish(context, symbol, unit, name).error is None ==> settled(
            unit,
            define_finish(context, symbol, unit, name).unit,
        ),
{
    reveal(define_finish);
    lemma_declare_local(unit.c, name);
}

/// The code of an expression leaves the scope settled.
pub proof fn lemma_expr(unit: Unit, e: ExprView)
    ensures
        compile_expr(unit, e).error is None ==> settled(unit, compile_expr(unit, e).unit),
    decreases e, 0nat, 0nat,
{
    match e {
        ExprView::Number(_) => lemma_constant(unit, e),
        ExprView::String(_) => lemma_constant(unit, e),
        ExprView::Ident(name) => lemma_access(unit, name),
        ExprView::List(list) => lemma_form(unit, list),
        ExprView::Sequence(items) => lemma_sequence(unit, items, 0),
        _ => {},
    }
}

/// The code of a sequence of expressions leaves the scope settled.
pub proof fn lemma_sequence(unit: Unit, items: Seq<ExprView>, from: nat)
    ensures
        compile_sequence(unit, items, from).error is None ==> settled(
            unit,
            compile_sequence(unit, items, from).unit,
        ),
    decreases items, 0nat, items.len() - from,
{
    if from < items.len() {
        let first = compile_expr(unit, items[from as int]);
        lemma_expr(unit, items[from as int]);
        if first.error is None && from + 1 != items.len() {
            lemma_sequence(emitted(first.unit, Op::Pop), items, from + 1);
        }
    }
}

proof fn lemma_form(unit: Unit, list: Seq<ExprView>)
    ensures
        compile_form(unit, list).error is None ==> settled(unit, compile_form(unit, list).unit),
    decreases list, 2nat, 0nat,
{
    match special_of(list) {
        Some(Special::Define) => lemma_define_form(unit, list),
        Some(Special::Lambda) => lemma_lambda_form(unit, list),
        Some(Special::If) => lemma_if_form(unit, list),
        Some(Special::Reserved(_)) => {},
        None => lemma_call(unit, list),
    }
}

proof fn lemma_args(unit: Unit, list: Seq<ExprView>, from: nat)
    ensures
        compile_args(unit, list, from).error is None ==> settled(
            unit,
            compile_args(unit, list, from).unit,
        ),
    decreases list, 0nat, list.len() - from,
{
    if from < list.len() {
        let first = compile_expr(unit, list[from as int]);
        lemma_expr(unit, list[from as int]);
        if first.error is None {
            lemma_args(first.unit, list, from + 1);
        }
    }
}

proof fn lemma_call(unit: Unit, list: Seq<ExprView>)
    ensures
        compile_call(unit, list).error is None ==> settled(unit, compile_call(unit, list).unit),
    decreases list, 1nat, 0nat,
{
    if list.len() > 0 {
        match list[0] {
            ExprView::Ident(name) => {
                let callee = compile_access(unit, name);
                lemma_access(unit, name);
                if callee.error is None {
                    lemma_args(callee.unit, list, 1);
                }
            },
            _ => {},
        }
    }
}

proof fn lemma_defined(unit: Unit, list: Seq<ExprView>, formals: Option<ExprView>)
    ensures
        compile_defined(unit, list, formals).error is None ==> settled(
            unit,
            compile_defined(unit, list, formals).unit,
        ),
    decreases list, 0nat, list.len() + 4,
{
    match formals {
        Some(formals) => lemma_lambda(unit, formals, 1, list, 2),
        None => {
            if list.len() > 2 {
                lemma_expr(unit, list[2]);
            }
        },
    }
}

proof fn lemma_definition(unit: Unit, name: Seq<char>, list: Seq<ExprView>, formals: Option<ExprView>)
    ensures
        compile_definition(unit, name, list, formals).error is None ==> settled(
            unit,
            compile_definition(unit, name, list, formals).unit,
        ),
    decreases list, 0nat, list.len() + 5,
{
    reveal(define_prepare);
    match define_prepare(unit, name) {
        Some((prepared, symbol)) => {
            lemma_intern_keeps(unit, name);
            let value = compile_defined(prepared, list, formals);
            lemma_defined(prepared, list, formals);
            if value.error is None {
                lemma_define_finish(unit.c.context, symbol, value.unit, name);
            }
        },
        None => {},
    }
}

proof fn lemma_define_form(unit: Unit, list: Seq<ExprView>)
    ensures
        compile_define_form(unit, list).error is None ==> settled(
            unit,
            compile_define_form(unit, list).unit,
        ),
    decreases list, 1nat, 0nat,
{
    if list.len() >= 2 {
        match list[1] {
            ExprView::Ident(name) => lemma_definition(unit, name, list, None),
            ExprView::List(formals) => {
                if formals.len() > 0 {
                    match formals[0] {
                        ExprView::Ident(name) => lemma_definition(unit, name, list, Some(list[1])),
                        _ => {},
                    }
                }
            },
            _ => {},
        }
    }
}

proof fn lemma_lambda_form(unit: Unit, list: Seq<ExprView>)
    ensures
        compile_lambda_form(unit, list).error is None ==> settled(
            unit,
            compile_lambda_form(unit, list).unit,
        ),
    decreases list, 1nat, 0nat,
{
    if list.len() >= 2 {
        lemma_lambda(unit, list[1], 0, list, 2);
    }
}

proof fn lemma_lambda(unit: Unit, formals: ExprView, skip: nat, body: Seq<ExprView>, from: nat)
    ensures
        compile_lambda(unit, formals, skip, body, from).error is None ==> settled(
            unit,
            compile_lambda(unit, formals, skip, body, from).unit,
        ),
    decreases body, 0nat, body.len() + 3,
{
    lemma_lambda_enter(unit, formals, skip);
    match lambda_enter(unit, formals, skip) {
        Ok(inner) => {
            let compiled = compile_body(inner, body, from);
            lemma_body(inner, body, from);
            if compiled.error is None {
                lemma_lambda_exit(scope_of(unit.c), compiled.unit);
                let after = lambda_exit(scope_of(unit.c), compiled.unit);
                if after.error is None {
                    assert(after.unit.c.locals =~= unit.c.locals);
                }
            }
        },
        Err(_) => {},
    }
}

proof fn lemma_defines(unit: Unit, body: Seq<ExprView>, from: nat)
    ensures
        compile_defines(unit, body, from).0.error is None ==> settled(
            unit,
            compile_defines(unit, body, from).0.unit,
        ),
    decreases body, 0nat, body.len() + 1 - from,
{
    if from < body.len() {
        match body[from as int] {
            ExprView::List(definition) => {
                if headed_by(body[from as int], "define"@) {
                    let defined = compile_define_form(unit, definition);
                    lemma_define_form(unit, definition);
                    if defined.error is None {
                        lemma_defines(defined.unit, body, from + 1);
                    }
                }
            },
            _ => {},
        }
    }
}

proof fn lemma_body(unit: Unit, body: Seq<ExprView>, from: nat)
    ensures
        compile_body(unit, body, from).error is None ==> grows(
            unit,
            compile_body(unit, body, from).unit,
        ),
    decreases body, 0nat, body.len() + 2,
{
    if from <= body.len() {
        let start = in_context(unit, Context::BodyStart);
        let (defined, rest) = compile_defines(start, body, from);
        lemma_defines(start, body, from);
        if defined.error is None && rest <= body.len() {
            let middle = in_context(defined.unit, Context::BodyRest);
            lemma_sequence(middle, body, rest);
        }
    }
}

proof fn lemma_if_form(unit: Unit, list: Seq<ExprView>)
    ensures
        compile_if_form(unit, list).error is None ==> settled(
            unit,
            compile_if_form(unit, list).unit,
        ),
    decreases list, 1nat, 0nat,
{
    reveal(if_begin);
    reveal(if_middle);
    reveal(if_end);
    if 3 <= list.len() <= 4 {
        let test = compile_expr(unit, list[1]);
        lemma_expr(unit, list[1]);
        if test.error is None {
            let consequent = compile_expr(if_begin(test.unit), list[2]);
            lemma_expr(if_begin(test.unit), list[2]);
            if consequent.error is None {
                let middle = if_middle(code_len(test.unit), consequent.unit);
                if middle.error is None {
                    if list.len() == 4 {
                        lemma_expr(middle.unit, list[3]);
                    }
                }
            }
        }
    }
}

} // verus!
