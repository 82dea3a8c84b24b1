//! The environment: global variables, procedure prototypes, and the heap of
//! closures and up-value cells.
use vstd::prelude::*;

use crate::error::{Error, ErrorView, Result, RuntimeError};
use crate::expr::{
    group_views, views, CellId, Closure, ClosureId, ClosureView, Expr, ExprView, NativeFunc,
    Proc, ProcView, UpValue, UpValueView,
};
use crate::limits::MAX_TABLE;
use crate::opcode::{ProcId, SymbolId};
use crate::symbol::{lemma_position, position, SymbolTable};

verus! {

broadcast use group_views;

pub struct Env {
    /// Names of the global variables.
    variables: SymbolTable,
    /// Values of the global variables, indexed by symbol.
    var_values: Vec<Expr>,
    /// Procedure prototypes declared in this environment.
    procedures: Vec<Proc>,
    /// Closures created so far.
    closures: Vec<Closure>,
    /// Up-value cells created so far.
    cells: Vec<UpValue>,
}

pub struct EnvView {
    pub names: Seq<Seq<char>>,
    pub values: Seq<ExprView>,
    pub procedures: Seq<ProcView>,
    pub closures: Seq<ClosureView>,
    pub cells: Seq<UpValueView>,
}

impl EnvView {
    /// An environment without variables, procedures or closures.
    pub open spec fn empty() -> EnvView {
        EnvView {
            names: Seq::empty(),
            values: Seq::empty(),
            procedures: Seq::empty(),
            closures: Seq::empty(),
            cells: Seq::empty(),
        }
    }

    /// The symbol of a name, if the name is known.
    pub open spec fn resolve(self, name: Seq<char>) -> Option<SymbolId> {
        match position(self.names, name) {
            Some(i) => Some(SymbolId(i as u16)),
            None => None,
        }
    }

    /// The value of a symbol, if there is a slot for it.
    pub open spec fn get(self, symbol: SymbolId) -> Option<ExprView> {
        if symbol.0 < self.values.len() {
            Some(self.values[symbol.0 as int])
        } else {
            None
        }
    }

    /// The value of a name, if the name is known and has a slot.
    pub open spec fn lookup(self, name: Seq<char>) -> Option<ExprView> {
        match self.resolve(name) {
            Some(symbol) => self.get(symbol),
            None => None,
        }
    }

    /// The environment after `symbol` has been given a value.
    pub open spec fn set(self, symbol: SymbolId, value: ExprView) -> EnvView {
        EnvView { values: self.values.update(symbol.0 as int, value), ..self }
    }

    /// The environment after `name` has been interned.
    pub open spec fn intern(self, name: Seq<char>) -> EnvView {
        if position(self.names, name) is Some {
            self
        } else {
            EnvView {
                names: self.names.push(name),
                values: grown(self.values, self.names.len()),
                ..self
            }
        }
    }

    /// Whether `name` can be interned: it is known, or there is an identifier left.
    pub open spec fn can_intern(self, name: Seq<char>) -> bool {
        position(self.names, name) is Some || self.names.len() < MAX_TABLE
    }
}

/// A table of values extended with empty lists so that it has a slot `index`.
pub open spec fn grown(table: Seq<ExprView>, index: nat) -> Seq<ExprView> {
    if index < table.len() {
        table
    } else {
        table + Seq::new((index + 1 - table.len()) as nat, |i: int| ExprView::Nil)
    }
}

/// Extend a table with empty lists until it has a slot `index`.
pub fn grow_table(table: &mut Vec<Expr>, index: usize)
    requires
        index < usize::MAX,
    ensures
        views(final(table)@) == grown(views(old(table)@), index as nat),
{
    let ghost before = views(table@);
    while table.len() <= index
        invariant
            index < usize::MAX,
            before.len() <= table.len(),
            table.len() == before.len() || table.len() <= index + 1,
            views(table@) =~= before + Seq::new(
                (table.len() - before.len()) as nat,
                |i: int| ExprView::Nil,
            ),
        decreases index + 1 - table.len(),
    {
        table.push(Expr::default());
    }
    assert(views(table@) =~= grown(before, index as nat)) by {
        let g = grown(before, index as nat);
        assert(views(table@).len() == table@.len());
        if index < before.len() {
            assert(table@.len() == before.len());
        } else {
            assert(table@.len() == index + 1);
            assert(g.len() == index + 1);
        }
        assert(g.len() == table@.len());
    }
}

impl View for Env {
    type V = EnvView;

    closed spec fn view(&self) -> EnvView {
        EnvView {
            names: self.variables@,
            values: views(self.var_values@),
            procedures: Seq::new(self.procedures@.len(), |i: int| self.procedures@[i]@),
            closures: Seq::new(self.closures@.len(), |i: int| self.closures@[i]@),
            cells: Seq::new(self.cells@.len(), |i: int| self.cells@[i]@),
        }
    }
}

impl Env {
    /// Every name has a slot for its value, and the tables that 16-bit
    /// identifiers index hold no more entries than there are identifiers.
    pub closed spec fn wf(&self) -> bool {
        &&& self.variables.wf()
        &&& self.variables@.len() <= self.var_values@.len()
        &&& self.procedures@.len() <= MAX_TABLE
    }

    /// In a well-formed environment every name has a slot for its value, and
    /// names and procedures are no more than their identifiers can number.
    pub proof fn lemma_wf(&self)
        requires
            self.wf(),
        ensures
            self@.names.len() <= self@.values.len(),
            self@.names.len() <= MAX_TABLE,
            self@.procedures.len() <= MAX_TABLE,
    {
        self.variables.lemma_bounded();
    }

    /// Create a new empty environment.
    pub fn new() -> (env: Self)
        ensures
            env.wf(),
            env@ == EnvView::empty(),
    {
        let env = Env {
            variables: SymbolTable::new(),
            var_values: Vec::new(),
            procedures: Vec::new(),
            closures: Vec::new(),
            cells: Vec::new(),
        };
        assert(env@.values =~= Seq::empty());
        assert(env@.procedures =~= Seq::empty());
        assert(env@.closures =~= Seq::empty());
        assert(env@.cells =~= Seq::empty());
        env
    }

    /// The value of the variable with the given name.
    pub fn lookup_var(&self, name: &str) -> (value: Option<&Expr>)
        requires
            self.wf(),
        ensures
            value is Some == self@.lookup(name@) is Some,
            value matches Some(v) ==> self@.lookup(name@) == Some(v@),
    {
        match self.resolve_var(name) {
            Some(symbol) => self.get_var(symbol),
            None => None,
        }
    }

    /// The symbol of a name, if the name is known.
    pub fn resolve_var(&self, name: &str) -> (symbol: Option<SymbolId>)
        requires
            self.wf(),
        ensures
            symbol == self@.resolve(name@),
    {
        proof {
            lemma_position(self.variables@, name@, 0);
        }
        self.variables.resolve(name)
    }

    /// The value of a symbol, if there is a slot for it.
    pub fn get_var(&self, symbol: SymbolId) -> (value: Option<&Expr>)
        ensures
            value is Some == self@.get(symbol) is Some,
            value matches Some(v) ==> self@.get(symbol) == Some(v@),
    {
        let index: usize = symbol.as_usize();
        if index < self.var_values.len() {
            Some(&self.var_values[index])
        } else {
            None
        }
    }

    /// Give a symbol a value.  A symbol without a slot is refused.
    pub fn set_var(&mut self, symbol: SymbolId, value: Expr) -> (done: Result<()>)
        requires
            old(self).wf(),
        ensures
            final(self).wf(),
            done is Ok <==> symbol.0 < old(self)@.values.len(),
            done is Ok ==> final(self)@ == old(self)@.set(symbol, value@),
            done matches Err(e) ==> final(self)@ == old(self)@ && e@ == ErrorView::Runtime(
                RuntimeError::UndeclaredVariable,
            ),
    {
        let index: usize = symbol.as_usize();
        if index < self.var_values.len() {
            let ghost before = self@;
            self.var_values[index] = value;
            assert(self@.procedures =~= before.procedures);
            assert(self@.closures =~= before.closures);
            assert(self@.cells =~= before.cells);
            Ok(())
        } else {
            Err(Error::Runtime(RuntimeError::UndeclaredVariable))
        }
    }

    /// Whether [`Env::intern_var`] can take the name.
    pub fn can_intern_var(&self, name: &str) -> (ok: bool)
        requires
            self.wf(),
        ensures
            ok == self@.can_intern(name@),
    {
        self.variables.resolve(name).is_some() || self.variables.len() < MAX_TABLE
    }

    /// The symbol of a name; a new name is added, with an empty list as its value.
    pub fn intern_var(&mut self, name: &str) -> (symbol: SymbolId)
        requires
            old(self).wf(),
            old(self)@.can_intern(name@),
        ensures
            final(self).wf(),
            final(self)@ == old(self)@.intern(name@),
            final(self)@.resolve(name@) == Some(symbol),
            symbol.0 < final(self)@.values.len(),
    {
        let ghost before = self@;
        let symbol = self.variables.intern_symbol(name);
        proof {
            lemma_position(self.variables@, name@, 0);
        }
        grow_table(&mut self.var_values, symbol.as_usize());
        proof {
            assert(self@.procedures =~= before.procedures);
            assert(self@.closures =~= before.closures);
            assert(self@.cells =~= before.cells);
            lemma_position(before.names, name@, 0);
            if position(before.names, name@) is Some {
                assert(self@.values =~= before.values);
            } else {
                assert(self@.names[symbol.0 as int] == name@);
                assert(symbol.0 == before.names.len());
                assert(self@.values.len() > symbol.0);
            }
        }
        symbol
    }

    /// Whether there is an identifier left for another procedure.
    pub fn can_add_procedure(&self) -> (ok: bool)
        requires
            self.wf(),
        ensures
            ok == (self@.procedures.len() < MAX_TABLE),
    {
        self.procedures.len() < MAX_TABLE
    }

    /// Add a procedure prototype to the table.
    pub fn add_procedure(&mut self, procedure: Proc) -> (id: ProcId)
        requires
            old(self).wf(),
            old(self)@.procedures.len() < MAX_TABLE,
        ensures
            final(self).wf(),
            id.0 == old(self)@.procedures.len(),
            final(self)@ == (EnvView {
                procedures: old(self)@.procedures.push(procedure@),
                ..old(self)@
            }),
    {
        let ghost before = self@;
        let index: usize = self.procedures.len();
        self.procedures.push(procedure);
        assert(self@.procedures =~= before.procedures.push(procedure@));
        assert(self@.closures =~= before.closures);
        assert(self@.cells =~= before.cells);
        ProcId::new(index as u16)
    }

    /// Bind a new name to a function of the host.  A name that is known
    /// already is refused, and so is any name once the table is full.
    pub fn bind_native_func(&mut self, name: &str, func: NativeFunc) -> (symbol: Result<SymbolId>)
        requires
            old(self).wf(),
        ensures
            final(self).wf(),
            symbol is Ok <==> old(self)@.resolve(name@) is None && old(self)@.names.len()
                < MAX_TABLE,
            symbol matches Ok(id) ==> id.0 == old(self)@.names.len() && final(self)@ == old(
                self,
            )@.intern(name@).set(id, ExprView::NativeFunc(func)),
            symbol matches Err(e) ==> final(self)@ == old(self)@ && e@ == ErrorView::Runtime(
                RuntimeError::AlreadyBound,
            ),
    {
        let ghost before = self@;
        match self.variables.insert_unique(name) {
            Some(symbol) => {
                grow_table(&mut self.var_values, symbol.as_usize());
                self.var_values[symbol.as_usize()] = Expr::NativeFunc(func);
                proof {
                    assert(self@.procedures =~= before.procedures);
                    assert(self@.closures =~= before.closures);
                    assert(self@.cells =~= before.cells);
                }
                Ok(symbol)
            },
            None => Err(Error::Runtime(RuntimeError::AlreadyBound)),
        }
    }

    /// A procedure prototype of the table.
    pub fn procedure(&self, id: ProcId) -> (proc: Option<&Proc>)
        ensures
            proc is Some <==> id.0 < self@.procedures.len(),
            proc matches Some(p) ==> p@ == self@.procedures[id.0 as int],
    {
        let index: usize = id.as_usize();
        if index < self.procedures.len() {
            Some(&self.procedures[index])
        } else {
            None
        }
    }

    /// A closure of the heap.
    pub fn closure(&self, id: ClosureId) -> (closure: Option<&Closure>)
        ensures
            closure is Some <==> id.0 < self@.closures.len(),
            closure matches Some(c) ==> c@ == self@.closures[id.0 as int],
    {
        if id.0 < self.closures.len() {
            Some(&self.closures[id.0])
        } else {
            None
        }
    }

    /// Put a closure on the heap.
    pub fn alloc_closure(&mut self, closure: Closure) -> (id: ClosureId)
        requires
            old(self).wf(),
        ensures
            final(self).wf(),
            id.0 == old(self)@.closures.len(),
            final(self)@ == (EnvView {
                closures: old(self)@.closures.push(closure@),
                ..old(self)@
            }),
    {
        let ghost before = self@;
        let index: usize = self.closures.len();
        self.closures.push(closure);
        assert(self@.procedures =~= before.procedures);
        assert(self@.closures =~= before.closures.push(closure@));
        assert(self@.cells =~= before.cells);
        ClosureId(index)
    }

    /// An up-value cell of the heap.
    pub fn cell(&self, id: CellId) -> (cell: Option<&UpValue>)
        ensures
            cell is Some <==> id.0 < self@.cells.len(),
            cell matches Some(c) ==> c@ == self@.cells[id.0 as int],
    {
        if id.0 < self.cells.len() {
            Some(&self.cells[id.0])
        } else {
            None
        }
    }

    /// The number of up-value cells on the heap.
    pub fn cell_count(&self) -> (count: usize)
        ensures
            count == self@.cells.len(),
    {
        self.cells.len()
    }

    /// Put an up-value cell on the heap.
    pub fn alloc_cell(&mut self, cell: UpValue) -> (id: CellId)
        requires
            old(self).wf(),
        ensures
            final(self).wf(),
            id.0 == old(self)@.cells.len(),
            final(self)@ == (EnvView { cells: old(self)@.cells.push(cell@), ..old(self)@ }),
    {
        let ghost before = self@;
        let index: usize = self.cells.len();
        self.cells.push(cell);
        assert(self@.procedures =~= before.procedures);
        assert(self@.closures =~= before.closures);
        assert(self@.cells =~= before.cells.push(cell@));
        CellId(index)
    }

    /// Replace an up-value cell of the heap.
    pub fn set_cell(&mut self, id: CellId, cell: UpValue)
        requires
            old(self).wf(),
            id.0 < old(self)@.cells.len(),
        ensures
            final(self).wf(),
            final(self)@ == (EnvView {
                cells: old(self)@.cells.update(id.0 as int, cell@),
                ..old(self)@
            }),
    {
        let ghost before = self@;
        self.cells[id.0] = cell;
        assert(self@.procedures =~= before.procedures);
        assert(self@.closures =~= before.closures);
        assert(self@.cells =~= before.cells.update(id.0 as int, cell@));
    }

    /// The names of the variables with their symbols.
    pub fn variables(&self) -> (items: Vec<(SymbolId, String)>)
        requires
            self.wf(),
        ensures
            items@.len() == self@.names.len(),
            forall|i: int|
                0 <= i < items@.len() ==> (#[trigger] items@[i]).0.0 == i && items@[i].1@
                    == self@.names[i],
    {
        self.variables.items()
    }
}

} // verus!
