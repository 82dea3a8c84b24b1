//! External text representation of values.
//!
//! Numbers are left to the host to write out: the text of a value is a
//! sequence of characters and of numbers as bit patterns.
use vstd::prelude::*;
use vstd::string::StrSliceExecFns;

use crate::expr::{group_views, views, Expr, ExprView, Keyword, Pair};

verus! {

broadcast use group_views;


/// One piece of the text of a value.
#[derive(Debug, Clone, Copy, PartialEq, Eq, Structural)]
pub enum Piece {
    Char(char),
    /// A number, to be written in the shortest decimal form that reads back as it.
    Number(u64),
}

/// A string as pieces: one piece for each character.
pub open spec fn spelled(s: Seq<char>) -> Seq<Piece>
    decreases s.len(),
{
    if s.len() == 0 {
        Seq::empty()
    } else {
        spelled(s.drop_last()).push(Piece::Char(s.last()))
    }
}

/// The hexadecimal digit of a value below 16.
pub open spec fn hex_digit(value: nat) -> char {
    if value < 10 {
        ((0x30 + value) as u8) as char
    } else {
        ((0x61 + value - 10) as u8) as char
    }
}

/// A number in hexadecimal, without leading zeros.
pub open spec fn hex(value: nat) -> Seq<Piece>
    decreases value,
{
    if value < 16 {
        seq![Piece::Char(hex_digit(value))]
    } else {
        hex(value / 16).push(Piece::Char(hex_digit(value % 16)))
    }
}

/// The text of a value.
pub open spec fn repr_of(e: ExprView) -> Seq<Piece>
    decreases e, 1nat, 0nat,
{
    match e {
        ExprView::Nil => spelled("()"@),
        ExprView::Void => spelled("#!void"@),
        ExprView::Bool(b) => if b {
            spelled("#t"@)
        } else {
            spelled("#f"@)
        },
        ExprView::Number(bits) => seq![Piece::Number(bits)],
        ExprView::String(s) => spelled(s),
        ExprView::Ident(name) => spelled(name),
        ExprView::Keyword(Keyword::Dot) => spelled("."@),
        ExprView::Quote(inner) => spelled("'"@) + repr_of(*inner),
        ExprView::List(items) => spelled("("@) + repr_items(items, 0) + spelled(")"@),
        ExprView::Pair(_, _) => spelled("("@) + repr_pair(e) + spelled(")"@),
        ExprView::Vector(items) => spelled("#("@) + repr_items(items, 0) + spelled(")"@),
        ExprView::Sequence(items) => spelled("("@) + repr_items(items, 0) + spelled(")"@),
        ExprView::Procedure(id) => spelled("<procedure 0x"@) + hex(id.0 as nat) + spelled(">"@),
        ExprView::Closure(id) => spelled("<procedure 0x"@) + hex(id.0 as nat) + spelled(">"@),
        ExprView::NativeFunc(_) => spelled("<native-function>"@),
    }
}

/// The texts of `items[from..]`, with one space between neighbours.
pub open spec fn repr_items(items: Seq<ExprView>, from: nat) -> Seq<Piece>
    decreases items, 0nat, items.len() - from,
{
    if from >= items.len() {
        Seq::empty()
    } else if from + 1 == items.len() {
        repr_of(items[from as int])
    } else {
        repr_of(items[from as int]) + spelled(" "@) + repr_items(items, from + 1)
    }
}

/// The text of a pair without its parentheses.  A tail that is a pair goes
/// on in the same parentheses, so that a chain of pairs that ends in the
/// empty list reads as a list; any other tail comes after a dot.
pub open spec fn repr_pair(pair: ExprView) -> Seq<Piece>
    decreases pair, 0nat, 0nat,
{
    match pair {
        ExprView::Pair(head, tail) => repr_of(*head) + (match *tail {
            ExprView::Nil => Seq::empty(),
            ExprView::Pair(_, _) => spelled(" "@) + repr_pair(*tail),
            _ => spelled(" . "@) + repr_of(*tail),
        }),
        _ => Seq::empty(),
    }
}

/// Append a string to a text.
pub(crate) fn push_text(out: &mut Vec<Piece>, s: &str)
    ensures
        final(out)@ == old(out)@ + spelled(s@),
{
    let ghost before = out@;
    let count: usize = s.unicode_len();
    let mut i: usize = 0;
    assert(out@ =~= before + spelled(s@.subrange(0, 0)));
    while i < count
        invariant
            i <= count,
            count == s@.len(),
            out@ == before + spelled(s@.subrange(0, i as int)),
        decreases count - i,
    {
        out.push(Piece::Char(s.get_char(i)));
        proof {
            let longer = s@.subrange(0, i + 1);
            assert(longer.drop_last() =~= s@.subrange(0, i as int));
            assert(longer.last() == s@[i as int]);
            assert(out@ =~= before + spelled(longer));
        }
        i += 1;
    }
    assert(s@.subrange(0, count as int) =~= s@);
}

/// Append a number in hexadecimal to a text.
fn push_hex(out: &mut Vec<Piece>, value: usize)
    ensures
        final(out)@ == old(out)@ + hex(value as nat),
    decreases value,
{
    if value >= 16 {
        push_hex(out, value / 16);
    }
    let digit: u8 = (value % 16) as u8;
    let c: char = if digit < 10 {
        (0x30 + digit) as char
    } else {
        (0x61 + digit - 10) as char
    };
    out.push(Piece::Char(c));
    assert(out@ =~= old(out)@ + hex(value as nat));
}

/// Append the text of a value to a text.
#[verifier::loop_isolation(false)]
pub(crate) fn write_repr(expr: &Expr, out: &mut Vec<Piece>)
    ensures
        final(out)@ == old(out)@ + repr_of(expr@),
    decreases expr, 1nat, 0nat,
{
    let ghost before = out@;
    match expr {
        Expr::Nil => push_text(out, "()"),
        Expr::Void => push_text(out, "#!void"),
        Expr::Bool(boolean) => {
            if *boolean {
                push_text(out, "#t")
            } else {
                push_text(out, "#f")
            }
        },
        Expr::Number(bits) => {
            out.push(Piece::Number(*bits));
            assert(out@ =~= before + seq![Piece::Number(*bits)]);
        },
        Expr::String(string) => push_text(out, string.as_str()),
        Expr::Ident(name) => push_text(out, name.as_str()),
        Expr::Keyword(keyword) => match keyword {
            Keyword::Dot => push_text(out, "."),
        },
        Expr::Quote(inner) => {
            push_text(out, "'");
            write_repr(inner, out);
            assert(out@ =~= before + (spelled("'"@) + repr_of(inner@)));
        },
        Expr::List(items) => {
            push_text(out, "(");
            write_items(items, 0, out);
            push_text(out, ")");
            assert(out@ =~= before + (spelled("("@) + repr_items(views(items@), 0) + spelled(")"@)));
        },
        Expr::Pair(pair) => {
            push_text(out, "(");
            write_pair(pair, out);
            push_text(out, ")");
            assert(out@ =~= before + (spelled("("@) + repr_pair(expr@) + spelled(")"@)));
        },
        Expr::Vector(items) => {
            push_text(out, "#(");
            write_items(items, 0, out);
            push_text(out, ")");
            assert(out@ =~= before + (spelled("#("@) + repr_items(views(items@), 0) + spelled(")"@)));
        },
        Expr::Sequence(items) => {
            push_text(out, "(");
            write_items(items, 0, out);
            push_text(out, ")");
            assert(out@ =~= before + (spelled("("@) + repr_items(views(items@), 0) + spelled(")"@)));
        },
        Expr::Procedure(id) => {
            push_text(out, "<procedure 0x");
            push_hex(out, id.as_usize());
            push_text(out, ">");
            assert(out@ =~= before + (spelled("<procedure 0x"@) + hex(id.0 as nat) + spelled(">"@)));
        },
        Expr::Closure(id) => {
            push_text(out, "<procedure 0x");
            push_hex(out, id.0);
            push_text(out, ">");
            assert(out@ =~= before + (spelled("<procedure 0x"@) + hex(id.0 as nat) + spelled(">"@)));
        },
        Expr::NativeFunc(_) => push_text(out, "<native-function>"),
    }
}

/// Append the texts of `items[from..]`, with one space between neighbours.
#[verifier::loop_isolation(false)]
fn write_items(items: &Vec<Expr>, from: usize, out: &mut Vec<Piece>)
    ensures
        final(out)@ == old(out)@ + repr_items(views(items@), from as nat),
    decreases items, 0nat, items.len() - from,
{
    let ghost before = out@;
    if from >= items.len() {
        assert(out@ =~= before + Seq::<Piece>::empty());
        return ;
    }
    let item = &items[from];
    assert(decreases_to!(items => item)) by {
        assert(decreases_to!(items => items@));
        assert(decreases_to!(items@ => items@[from as int]));
    }
    write_repr(item, out);
    if from + 1 < items.len() {
        push_text(out, " ");
        write_items(items, from + 1, out);
        assert(out@ =~= before + (repr_of(item@) + spelled(" "@) + repr_items(
            views(items@),
            (from + 1) as nat,
        )));
    }
}

/// Append the text of a pair without its parentheses.
fn write_pair(pair: &Pair, out: &mut Vec<Piece>)
    ensures
        final(out)@ == old(out)@ + repr_pair(
            ExprView::Pair(Box::new(pair.head@), Box::new(pair.tail@)),
        ),
    decreases pair, 0nat, 0nat,
{
    let ghost before = out@;
    write_repr(&pair.head, out);
    match &pair.tail {
        Expr::Nil => {
            assert(out@ =~= before + (repr_of(pair.head@) + Seq::<Piece>::empty()));
        },
        Expr::Pair(inner_pair) => {
            push_text(out, " ");
            write_pair(inner_pair, out);
            assert(out@ =~= before + (repr_of(pair.head@) + (spelled(" "@) + repr_pair(
                pair.tail@,
            ))));
        },
        tail => {
            push_text(out, " . ");
            write_repr(tail, out);
            assert(out@ =~= before + (repr_of(pair.head@) + (spelled(" . "@) + repr_of(tail@))));
        },
    }
}

/// The text of a value.
pub fn repr(expr: &Expr) -> (text: Vec<Piece>)
    ensures
        text@ == repr_of(expr@),
{
    let mut out: Vec<Piece> = Vec::new();
    write_repr(expr, &mut out);
    assert(out@ =~= repr_of(expr@));
    out
}

/// The text of a value, to be written out on demand.
pub struct ExprRepr<'a> {
    expr: &'a Expr,
}

impl<'a> ExprRepr<'a> {
    pub fn new(expr: &'a Expr) -> (repr: Self)
        ensures
            repr.value() == expr@,
    {
        Self { expr }
    }

    /// The value whose text this is.
    pub closed spec fn value(&self) -> ExprView {
        self.expr@
    }

    /// The pieces of the text.
    pub fn pieces(&self) -> (text: Vec<Piece>)
        ensures
            text@ == repr_of(self.value()),
    {
        repr(self.expr)
    }
}

impl Expr {
    /// The text of the value, to be written out on demand.
    #[inline]
    pub fn repr(&self) -> (repr: ExprRepr<'_>)
        ensures
            repr.value() == self@,
    {
        ExprRepr::new(self)
    }
}

} // verus!
