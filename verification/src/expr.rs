//! The value representation shared by parser, compiler and virtual machine.
use vstd::prelude::*;
use smol_str::SmolStr;

use crate::opcode::{Op, ProcId};
use crate::smol::{smol_clone, smol_text};
use crate::text::str_eq;

verus! {

/// Syntactic keywords that are neither identifiers nor literals.
#[derive(Debug, Clone, Copy, PartialEq, Eq, Structural)]
pub enum Keyword {
    /// The separator of a dotted pair, as in `(a . b)`.
    Dot,
}

/// Identifier of a callable supplied by the host.
#[derive(Debug, Clone, Copy, PartialEq, Eq, Structural)]
pub struct NativeFunc(pub u16);

/// Handle of a closure in the heap of an environment.  Two closure values are
/// the same closure exactly if their handles are equal.
#[derive(Debug, Clone, Copy, PartialEq, Eq, Structural)]
pub struct ClosureId(pub usize);

/// Handle of an up-value cell in the heap of an environment.  Closures that
/// captured the same variable hold the same handle.
#[derive(Debug, Clone, Copy, PartialEq, Eq, Structural)]
pub struct CellId(pub usize);

/// A cons cell.
#[derive(Debug)]
pub struct Pair {
    pub head: Expr,
    pub tail: Expr,
}

/// A value: both the syntax tree the compiler reads and the data the virtual
/// machine computes with.
#[derive(Debug)]
pub enum Expr {
    /// The empty list `'()`.
    Nil,
    /// The result of forms that are evaluated for their effect only.
    Void,
    Bool(bool),
    /// A double-precision number, held as its IEEE 754 bit pattern.
    Number(u64),
    String(String),
    Ident(SmolStr),
    Keyword(Keyword),
    Quote(Box<Expr>),
    List(Vec<Expr>),
    Pair(Box<Pair>),
    Vector(Vec<Expr>),
    /// The body of a program: top-level forms in order.
    Sequence(Vec<Expr>),
    /// A procedure prototype of the environment.
    Procedure(ProcId),
    Closure(ClosureId),
    NativeFunc(NativeFunc),
}

/// The mathematical value of an [`Expr`].
pub enum ExprView {
    Nil,
    Void,
    Bool(bool),
    Number(u64),
    String(Seq<char>),
    Ident(Seq<char>),
    Keyword(Keyword),
    Quote(Box<ExprView>),
    List(Seq<ExprView>),
    Pair(Box<ExprView>, Box<ExprView>),
    Vector(Seq<ExprView>),
    Sequence(Seq<ExprView>),
    Procedure(ProcId),
    Closure(ClosureId),
    NativeFunc(NativeFunc),
}

/// The values of a sequence of expressions.
pub open spec fn views(items: Seq<Expr>) -> Seq<ExprView> {
    Seq::new(items.len(), |i: int| items[i]@)
}

impl Expr {
    /// The value of the expression, by recursion over its structure.
    pub open spec fn model(&self) -> ExprView
        decreases self,
    {
        match self {
            Expr::Nil => ExprView::Nil,
            Expr::Void => ExprView::Void,
            Expr::Bool(b) => ExprView::Bool(*b),
            Expr::Number(bits) => ExprView::Number(*bits),
            Expr::String(s) => ExprView::String(s@),
            Expr::Ident(name) => ExprView::Ident(smol_text(*name)),
            Expr::Keyword(k) => ExprView::Keyword(*k),
            Expr::Quote(inner) => ExprView::Quote(Box::new(inner.model())),
            Expr::List(items) => ExprView::List(
                Seq::new(
                    items@.len(),
                    |i: int|
                        if 0 <= i < items@.len() {
                            items@[i].model()
                        } else {
                            ExprView::Nil
                        },
                ),
            ),
            Expr::Pair(pair) => ExprView::Pair(
                Box::new(pair.head.model()),
                Box::new(pair.tail.model()),
            ),
            Expr::Vector(items) => ExprView::Vector(
                Seq::new(
                    items@.len(),
                    |i: int|
                        if 0 <= i < items@.len() {
                            items@[i].model()
                        } else {
                            ExprView::Nil
                        },
                ),
            ),
            Expr::Sequence(items) => ExprView::Sequence(
                Seq::new(
                    items@.len(),
                    |i: int|
                        if 0 <= i < items@.len() {
                            items@[i].model()
                        } else {
                            ExprView::Nil
                        },
                ),
            ),
            Expr::Procedure(id) => ExprView::Procedure(*id),
            Expr::Closure(id) => ExprView::Closure(*id),
            Expr::NativeFunc(func) => ExprView::NativeFunc(*func),
        }
    }
}

impl View for Expr {
    type V = ExprView;

    open spec fn view(&self) -> ExprView {
        self.model()
    }
}

/// The value of a list is built from the values of its items.
pub broadcast proof fn lemma_list_view(items: Vec<Expr>)
    ensures
        #[trigger] Expr::List(items)@ == ExprView::List(views(items@)),
{
    assert(Expr::List(items)@->List_0 =~= views(items@));
}

/// The value of a vector is built from the values of its items.
pub broadcast proof fn lemma_vector_view(items: Vec<Expr>)
    ensures
        #[trigger] Expr::Vector(items)@ == ExprView::Vector(views(items@)),
{
    assert(Expr::Vector(items)@->Vector_0 =~= views(items@));
}

/// The value of a sequence is built from the values of its items.
pub broadcast proof fn lemma_sequence_view(items: Vec<Expr>)
    ensures
        #[trigger] Expr::Sequence(items)@ == ExprView::Sequence(views(items@)),
{
    assert(Expr::Sequence(items)@->Sequence_0 =~= views(items@));
}

/// Appending an item appends its value.
pub broadcast proof fn lemma_views_push(items: Seq<Expr>, item: Expr)
    ensures
        #[trigger] views(items.push(item)) == views(items).push(item@),
{
    assert(views(items.push(item)) =~= views(items).push(item@));
}

/// Replacing an item replaces its value.
pub broadcast proof fn lemma_views_update(items: Seq<Expr>, i: int, item: Expr)
    requires
        0 <= i < items.len(),
    ensures
        #[trigger] views(items.update(i, item)) == views(items).update(i, item@),
{
    assert(views(items.update(i, item)) =~= views(items).update(i, item@));
}

/// The values of a part of a sequence are that part of its values.
pub broadcast proof fn lemma_views_subrange(items: Seq<Expr>, from: int, to: int)
    requires
        0 <= from <= to <= items.len(),
    ensures
        #[trigger] views(items.subrange(from, to)) == views(items).subrange(from, to),
{
    assert(views(items.subrange(from, to)) =~= views(items).subrange(from, to));
}

/// The values of a sequence are as many as its items, each the value of its item.
pub broadcast proof fn lemma_views_index(items: Seq<Expr>)
    ensures
        #![trigger views(items)]
        views(items).len() == items.len(),
        forall|i: int| 0 <= i < items.len() ==> #[trigger] views(items)[i] == items[i]@,
{
}

pub broadcast group group_views {
    lemma_list_view,
    lemma_vector_view,
    lemma_sequence_view,
    lemma_views_push,
    lemma_views_update,
    lemma_views_subrange,
    lemma_views_index,
}

/// Equality of values.  Two values are equal if they are of the same kind
/// and hold the same data: scalars what they hold (numbers: the same bit
/// pattern), quotes, lists, pairs, vectors and sequences equal items in the
/// same order, and procedures, closures and native functions the same
/// identity.  Every value is equal to itself.  Two numbers of different bit
/// patterns are different values, though they may be equal as numbers, as
/// zero and minus zero are: where that matters the host is asked.
pub open spec fn expr_eq(a: ExprView, b: ExprView) -> bool {
    a == b
}

impl Expr {
    /// A deep copy of the value.
    #[verifier::loop_isolation(false)]
    pub fn duplicate(&self) -> (copy: Expr)
        ensures
            copy@ == self@,
        decreases self,
    {
        match self {
            Expr::Nil => Expr::Nil,
            Expr::Void => Expr::Void,
            Expr::Bool(b) => Expr::Bool(*b),
            Expr::Number(bits) => Expr::Number(*bits),
            Expr::String(s) => Expr::String(s.clone()),
            Expr::Ident(name) => Expr::Ident(smol_clone(name)),
            Expr::Keyword(k) => Expr::Keyword(*k),
            Expr::Quote(inner) => Expr::Quote(Box::new(inner.duplicate())),
            Expr::List(items) => {
                let mut out: Vec<Expr> = Vec::new();
                let mut i: usize = 0;
                while i < items.len()
                    invariant
                        i <= items.len(),
                        out.len() == i,
                        forall|j: int| 0 <= j < i ==> out@[j]@ == items@[j]@,
                    decreases items.len() - i,
                {
                    let item = &items[i];
                    assert(decreases_to!(self => item)) by {
                        assert(decreases_to!(self => self->List_0));
                        assert(decreases_to!(items => items@));
                        assert(decreases_to!(items@ => items@[i as int]));
                    }
                    out.push(item.duplicate());
                    i += 1;
                }
                proof {
                    lemma_list_view(out);
                    lemma_list_view(*items);
                    assert(views(out@) =~= views(items@));
                }
                Expr::List(out)
            },
            Expr::Pair(pair) => Expr::Pair(
                Box::new(Pair { head: pair.head.duplicate(), tail: pair.tail.duplicate() }),
            ),
            Expr::Vector(items) => {
                let mut out: Vec<Expr> = Vec::new();
                let mut i: usize = 0;
                while i < items.len()
                    invariant
                        i <= items.len(),
                        out.len() == i,
                        forall|j: int| 0 <= j < i ==> out@[j]@ == items@[j]@,
                    decreases items.len() - i,
                {
                    let item = &items[i];
                    assert(decreases_to!(self => item)) by {
                        assert(decreases_to!(self => self->Vector_0));
                        assert(decreases_to!(items => items@));
                        assert(decreases_to!(items@ => items@[i as int]));
                    }
                    out.push(item.duplicate());
                    i += 1;
                }
                proof {
                    lemma_vector_view(out);
                    lemma_vector_view(*items);
                    assert(views(out@) =~= views(items@));
                }
                Expr::Vector(out)
            },
            Expr::Sequence(items) => {
                let mut out: Vec<Expr> = Vec::new();
                let mut i: usize = 0;
                while i < items.len()
                    invariant
                        i <= items.len(),
                        out.len() == i,
                        forall|j: int| 0 <= j < i ==> out@[j]@ == items@[j]@,
                    decreases items.len() - i,
                {
                    let item = &items[i];
                    assert(decreases_to!(self => item)) by {
                        assert(decreases_to!(self => self->Sequence_0));
                        assert(decreases_to!(items => items@));
                        assert(decreases_to!(items@ => items@[i as int]));
                    }
                    out.push(item.duplicate());
                    i += 1;
                }
                proof {
                    lemma_sequence_view(out);
                    lemma_sequence_view(*items);
                    assert(views(out@) =~= views(items@));
                }
                Expr::Sequence(out)
            },
            Expr::Procedure(id) => Expr::Procedure(*id),
            Expr::Closure(id) => Expr::Closure(*id),
            Expr::NativeFunc(func) => Expr::NativeFunc(*func),
        }
    }

    /// Whether two values are equal in the sense of [`expr_eq`].
    pub fn same(&self, other: &Expr) -> (equal: bool)
        ensures
            equal == expr_eq(self@, other@),
        decreases self, 1nat,
    {
        match (self, other) {
            (Expr::Nil, Expr::Nil) => true,
            (Expr::Void, Expr::Void) => true,
            (Expr::Bool(a), Expr::Bool(b)) => *a == *b,
            (Expr::Number(a), Expr::Number(b)) => *a == *b,
            (Expr::String(a), Expr::String(b)) => str_eq(a.as_str(), b.as_str()),
            (Expr::Ident(a), Expr::Ident(b)) => str_eq(a.as_str(), b.as_str()),
            (Expr::Keyword(a), Expr::Keyword(b)) => *a == *b,
            (Expr::Quote(a), Expr::Quote(b)) => a.same(b),
            (Expr::List(a), Expr::List(b)) => {
                proof {
                    lemma_list_view(*a);
                    lemma_list_view(*b);
                }
                Self::same_items(a, b)
            },
            (Expr::Pair(a), Expr::Pair(b)) => a.head.same(&b.head) && a.tail.same(&b.tail),
            (Expr::Vector(a), Expr::Vector(b)) => {
                proof {
                    lemma_vector_view(*a);
                    lemma_vector_view(*b);
                }
                Self::same_items(a, b)
            },
            (Expr::Sequence(a), Expr::Sequence(b)) => {
                proof {
                    lemma_sequence_view(*a);
                    lemma_sequence_view(*b);
                }
                Self::same_items(a, b)
            },
            (Expr::Procedure(a), Expr::Procedure(b)) => *a == *b,
            (Expr::Closure(a), Expr::Closure(b)) => *a == *b,
            (Expr::NativeFunc(a), Expr::NativeFunc(b)) => *a == *b,
            _ => false,
        }
    }

    /// Whether two rows of values are equal item by item.
    #[verifier::loop_isolation(false)]
    fn same_items(items: &Vec<Expr>, others: &Vec<Expr>) -> (equal: bool)
        ensures
            equal == (views(items@) == views(others@)),
        decreases items, 0nat,
    {
        if items.len() != others.len() {
            assert(views(items@).len() != views(others@).len());
            return false;
        }
        let mut i: usize = 0;
        while i < items.len()
            invariant
                i <= items.len(),
                items.len() == others.len(),
                forall|j: int| 0 <= j < i ==> items@[j]@ == others@[j]@,
            decreases items.len() - i,
        {
            let item = &items[i];
            assert(decreases_to!(items => item)) by {
                assert(decreases_to!(items => items@));
                assert(decreases_to!(items@ => items@[i as int]));
            }
            if !item.same(&others[i]) {
                assert(views(items@)[i as int] != views(others@)[i as int]);
                return false;
            }
            i += 1;
        }
        assert(views(items@) =~= views(others@));
        true
    }

    pub fn is_boolean(&self) -> (b: bool)
        ensures
            b == (self@ is Bool),
    {
        match self {
            Expr::Bool(_) => true,
            _ => false,
        }
    }

    /// The bit pattern of the number, if the value is a number.
    pub fn as_number(&self) -> (bits: Option<u64>)
        ensures
            bits == (match self@ {
                ExprView::Number(n) => Some(n),
                _ => None,
            }),
    {
        match self {
            Expr::Number(bits) => Some(*bits),
            _ => None,
        }
    }

    pub fn is_number(&self) -> (b: bool)
        ensures
            b == (self@ is Number),
    {
        match self {
            Expr::Number(_) => true,
            _ => false,
        }
    }

    /// The items of a list or of a sequence.
    pub fn as_slice(&self) -> (items: Option<&Vec<Expr>>)
        ensures
            match self@ {
                ExprView::List(l) => items is Some && views(items->0@) == l,
                ExprView::Sequence(l) => items is Some && views(items->0@) == l,
                _ => items is None,
            },
    {
        match self {
            Expr::List(list) => {
                proof {
                    lemma_list_view(*list);
                }
                Some(list)
            },
            Expr::Sequence(sequence) => {
                proof {
                    lemma_sequence_view(*sequence);
                }
                Some(sequence)
            },
            _ => None,
        }
    }

    /// The name, if the value is an identifier.
    pub fn as_ident(&self) -> (name: Option<&str>)
        ensures
            match self@ {
                ExprView::Ident(n) => name is Some && name->0@ == n,
                _ => name is None,
            },
    {
        match self {
            Expr::Ident(name) => Some(name.as_str()),
            _ => None,
        }
    }

    /// The items of a sequence or of a list.
    pub fn as_sequence(&self) -> (items: Option<&Vec<Expr>>)
        ensures
            match self@ {
                ExprView::List(l) => items is Some && views(items->0@) == l,
                ExprView::Sequence(l) => items is Some && views(items->0@) == l,
                _ => items is None,
            },
    {
        self.as_slice()
    }

    /// The handle of the closure, if the value is a closure.
    pub fn as_closure(&self) -> (handle: Option<ClosureId>)
        ensures
            handle == (match self@ {
                ExprView::Closure(id) => Some(id),
                _ => None,
            }),
    {
        match self {
            Expr::Closure(handle) => Some(*handle),
            _ => None,
        }
    }

    /// The cons cell, if the value is a pair.
    pub fn as_pair(&self) -> (pair: Option<&Pair>)
        ensures
            match self@ {
                ExprView::Pair(h, t) => pair is Some && pair->0.head@ == *h && pair->0.tail@ == *t,
                _ => pair is None,
            },
    {
        match self {
            Expr::Pair(pair) => Some(&**pair),
            _ => None,
        }
    }
}

/// The list of the items `items[from..]` as a chain of pairs that ends in
/// the empty list.
pub open spec fn list_of(items: Seq<ExprView>, from: nat) -> ExprView
    decreases items.len() - from,
{
    if from >= items.len() {
        ExprView::Nil
    } else {
        ExprView::Pair(Box::new(items[from as int]), Box::new(list_of(items, from + 1)))
    }
}

impl Pair {
    pub fn new(head: Expr, tail: Expr) -> (pair: Pair)
        ensures
            pair.head == head,
            pair.tail == tail,
    {
        Pair { head, tail }
    }

    /// The value of the pair.
    pub open spec fn spec_expr(&self) -> ExprView {
        ExprView::Pair(Box::new(self.head@), Box::new(self.tail@))
    }

    /// The pair as a value.
    pub fn to_expr(self) -> (expr: Expr)
        ensures
            expr@ == self.spec_expr(),
    {
        Expr::Pair(Box::new(self))
    }

    /// The list of the given items, or nothing if there are none: the
    /// empty list is no pair.
    pub fn new_list(items: &Vec<Expr>) -> (list: Option<Pair>)
        ensures
            list is Some <==> items@.len() > 0,
            list matches Some(pair) ==> pair.spec_expr() == list_of(views(items@), 0),
    {
        if items.len() == 0 {
            return None;
        }
        let mut tail = Expr::Nil;
        let mut i: usize = items.len() - 1;
        while i > 0
            invariant
                i < items.len(),
                tail@ == list_of(views(items@), (i + 1) as nat),
            decreases i,
        {
            tail = Expr::Pair(Box::new(Pair { head: items[i].duplicate(), tail }));
            i -= 1;
        }
        Some(Pair { head: items[0].duplicate(), tail })
    }

    /// The list of the given items, or nothing if there are none.
    pub fn new_list_vec(items: Vec<Expr>) -> (list: Option<Pair>)
        ensures
            list is Some <==> items@.len() > 0,
            list matches Some(pair) ==> pair.spec_expr() == list_of(views(items@), 0),
    {
        Self::new_list(&items)
    }

    /// The first item and what follows it.
    pub fn split_first(&self) -> (parts: (&Expr, &Expr))
        ensures
            *parts.0 == self.head,
            *parts.1 == self.tail,
    {
        (&self.head, &self.tail)
    }
}

impl Clone for Expr {
    fn clone(&self) -> (copy: Self)
        ensures
            copy@ == self@,
    {
        self.duplicate()
    }
}

impl PartialEq for Expr {
    fn eq(&self, other: &Expr) -> (equal: bool) {
        self.same(other)
    }
}

impl vstd::std_specs::cmp::PartialEqSpecImpl for Expr {
    open spec fn obeys_eq_spec() -> bool {
        true
    }

    open spec fn eq_spec(&self, other: &Expr) -> bool {
        expr_eq(self@, other@)
    }
}

impl Default for Expr {
    fn default() -> (value: Expr)
        ensures
            value@ == ExprView::Nil,
    {
        Expr::Nil
    }
}

/// How many arguments a procedure takes.
#[derive(Debug, Clone, Copy, PartialEq, Eq, Structural)]
pub struct Signature {
    /// The number of fixed arguments.
    pub arity: u8,
    /// Whether further arguments are accepted and collected into a list.
    pub variadic: bool,
}

impl Signature {
    pub fn new(arity: u8, variadic: bool) -> (sig: Self)
        ensures
            sig == (Signature { arity, variadic }),
    {
        Self { arity, variadic }
    }

    pub fn empty() -> (sig: Self)
        ensures
            sig == (Signature { arity: 0, variadic: false }),
    {
        Self::new(0, false)
    }

    /// Whether a call with `count` arguments matches the signature.
    pub open spec fn accepts(self, count: nat) -> bool {
        if self.variadic {
            count >= self.arity
        } else {
            count == self.arity
        }
    }

    /// Whether a call with `count` arguments matches the signature.
    pub fn admits(&self, count: usize) -> (ok: bool)
        ensures
            ok == self.accepts(count as nat),
    {
        if self.variadic {
            count >= self.arity as usize
        } else {
            count == self.arity as usize
        }
    }
}

/// A procedure prototype: compiled code that closures are instances of.
/// It does not change once the compiler has produced it.
#[derive(Debug)]
pub struct Proc {
    pub(crate) code: Vec<Op>,
    pub(crate) sig: Signature,
    pub(crate) constants: Vec<Expr>,
    /// The number of stack slots a call frame reserves above its arguments.
    pub(crate) local_count: usize,
    /// The number of up-values a closure of this procedure holds.
    pub(crate) up_value_count: usize,
}

pub struct ProcView {
    pub code: Seq<Op>,
    pub sig: Signature,
    pub constants: Seq<ExprView>,
    pub local_count: nat,
    pub up_value_count: nat,
}

impl View for Proc {
    type V = ProcView;

    closed spec fn view(&self) -> ProcView {
        ProcView {
            code: self.code@,
            sig: self.sig,
            constants: views(self.constants@),
            local_count: self.local_count as nat,
            up_value_count: self.up_value_count as nat,
        }
    }
}

impl Proc {
    /// The instructions of the procedure.
    #[inline]
    pub fn bytecode(&self) -> (code: &Vec<Op>)
        ensures
            code@ == self@.code,
    {
        &self.code
    }

    pub fn signature(&self) -> (sig: Signature)
        ensures
            sig == self@.sig,
    {
        self.sig
    }

    /// The number of stack slots a call frame reserves above its arguments.
    pub fn local_count(&self) -> (count: usize)
        ensures
            count == self@.local_count,
    {
        self.local_count
    }

    /// The number of up-values a closure of this procedure holds.
    pub fn up_value_count(&self) -> (count: usize)
        ensures
            count == self@.up_value_count,
    {
        self.up_value_count
    }

    /// A constant of the procedure.
    pub fn constant(&self, index: usize) -> (value: Option<&Expr>)
        ensures
            value is Some <==> index < self@.constants.len(),
            value matches Some(v) ==> v@ == self@.constants[index as int],
    {
        if index < self.constants.len() {
            Some(&self.constants[index])
        } else {
            None
        }
    }

    /// The instruction at an address.
    pub fn op(&self, pc: usize) -> (op: Option<Op>)
        ensures
            op == (if pc < self@.code.len() {
                Some(self@.code[pc as int])
            } else {
                None
            }),
            op is Some ==> pc < usize::MAX,
    {
        if pc < self.code.len() {
            Some(self.code[pc])
        } else {
            None
        }
    }

    /// Assemble a prototype from its parts.
    pub fn assemble(
        code: Vec<Op>,
        sig: Signature,
        constants: Vec<Expr>,
        local_count: usize,
        up_value_count: usize,
    ) -> (proc: Proc)
        ensures
            proc@ == (ProcView {
                code: code@,
                sig,
                constants: views(constants@),
                local_count: local_count as nat,
                up_value_count: up_value_count as nat,
            }),
    {
        Proc { code, sig, constants, local_count, up_value_count }
    }

    pub fn duplicate(&self) -> (copy: Proc)
        ensures
            copy@ == self@,
    {
        let mut code: Vec<Op> = Vec::new();
        let mut i: usize = 0;
        while i < self.code.len()
            invariant
                i <= self.code.len(),
                code@ == self.code@.subrange(0, i as int),
            decreases self.code.len() - i,
        {
            code.push(self.code[i]);
            assert(code@ =~= self.code@.subrange(0, i + 1));
            i += 1;
        }
        assert(code@ =~= self.code@);
        let mut constants: Vec<Expr> = Vec::new();
        let mut k: usize = 0;
        while k < self.constants.len()
            invariant
                k <= self.constants.len(),
                constants.len() == k,
                forall|j: int| 0 <= j < k ==> constants@[j]@ == self.constants@[j]@,
            decreases self.constants.len() - k,
        {
            constants.push(self.constants[k].duplicate());
            k += 1;
        }
        assert(views(constants@) =~= views(self.constants@));
        Proc {
            code,
            sig: self.sig,
            constants,
            local_count: self.local_count,
            up_value_count: self.up_value_count,
        }
    }
}

/// A callable instance of a procedure: the prototype together with the
/// variables it captured.
#[derive(Debug)]
pub struct Closure {
    pub(crate) proc: ProcId,
    pub(crate) up_values: Vec<CellId>,
}

pub struct ClosureView {
    pub proc: ProcId,
    pub up_values: Seq<CellId>,
}

impl View for Closure {
    type V = ClosureView;

    closed spec fn view(&self) -> ClosureView {
        ClosureView { proc: self.proc, up_values: self.up_values@ }
    }
}

impl Closure {
    /// A closure that captures nothing.
    pub fn new(proc: ProcId) -> (closure: Self)
        ensures
            closure@ == (ClosureView { proc, up_values: Seq::empty() }),
    {
        Self { proc, up_values: Vec::new() }
    }

    pub fn with_up_values(proc: ProcId, up_values: Vec<CellId>) -> (closure: Self)
        ensures
            closure@ == (ClosureView { proc, up_values: up_values@ }),
    {
        Self { proc, up_values }
    }

    /// The prototype this closure is an instance of.
    #[inline]
    pub fn procedure(&self) -> (proc: ProcId)
        ensures
            proc == self@.proc,
    {
        self.proc
    }

    /// The prototype this closure is an instance of.
    #[inline]
    pub fn procedure_rc(&self) -> (proc: ProcId)
        ensures
            proc == self@.proc,
    {
        self.proc
    }

    /// The cell of a captured variable.
    pub fn up_value(&self, index: usize) -> (cell: Option<CellId>)
        ensures
            cell == (if index < self@.up_values.len() {
                Some(self@.up_values[index as int])
            } else {
                None
            }),
    {
        if index < self.up_values.len() {
            Some(self.up_values[index])
        } else {
            None
        }
    }
}

/// A variable that a closure refers to but that belongs to an enclosing
/// procedure.
#[derive(Debug)]
pub enum UpValue {
    /// The variable is still a local of a running frame; the cell holds the
    /// absolute position of its slot on the operand stack.
    Open(usize),
    /// The frame has returned; the cell owns the value.
    Closed(Expr),
}

pub enum UpValueView {
    Open(nat),
    Closed(ExprView),
}

impl View for UpValue {
    type V = UpValueView;

    open spec fn view(&self) -> UpValueView {
        match self {
            UpValue::Open(pos) => UpValueView::Open(*pos as nat),
            UpValue::Closed(value) => UpValueView::Closed(value@),
        }
    }
}

impl UpValue {
    /// Give the cell a value of its own.
    #[inline]
    pub fn close(&mut self, value: Expr)
        ensures
            final(self)@ == UpValueView::Closed(value@),
    {
        *self = UpValue::Closed(value);
    }
}

} // verus!
