//! The expression tree: time reference, numeric literal, unary application,
//! binary application. A pure value type, finite and immutable once built.

use vstd::prelude::*;
use crate::numeral::Numeral;
use crate::ops::{BinOp, UnOp};

verus! {

/// A node of the expression tree.
#[derive(Debug, PartialEq)]
pub enum Expr {
    Time,
    Num(Numeral),
    UnExpr(UnOp, Box<Expr>),
    BinExpr(Box<Expr>, BinOp, Box<Expr>),
}

impl Clone for Expr {
    /// A clone of a tree is the tree itself: an exact deep copy.
    fn clone(&self) -> (res: Self)
        ensures
            res == *self,
        decreases *self,
    {
        match self {
            Expr::Time => Expr::Time,
            Expr::Num(n) => Expr::Num(*n),
            Expr::UnExpr(op, child) => Expr::UnExpr(*op, Box::new((&**child).clone())),
            Expr::BinExpr(left, op, right) => Expr::BinExpr(
                Box::new((&**left).clone()),
                *op,
                Box::new((&**right).clone()),
            ),
        }
    }
}

} // verus!
