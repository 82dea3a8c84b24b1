//! Helpers to build values.
use vstd::prelude::*;

use crate::expr::{Expr, ExprView, Pair};

verus! {

/// The empty list.
pub fn nil() -> (expr: Expr)
    ensures
        expr@ == ExprView::Nil,
{
    Expr::Nil
}

/// The pair of two values.
pub fn cons(head: Expr, tail: Expr) -> (expr: Expr)
    ensures
        expr@ == ExprView::Pair(Box::new(head@), Box::new(tail@)),
{
    Expr::Pair(Box::new(Pair::new(head, tail)))
}

/// The number with the given bit pattern.
pub fn number(bits: u64) -> (expr: Expr)
    ensures
        expr@ == ExprView::Number(bits),
{
    Expr::Number(bits)
}

} // verus!
