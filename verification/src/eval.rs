//! The per-sample evaluator: one time value and one expression tree give one
//! sample in the 32-bit signed integer domain. Addition, subtraction,
//! multiplication and negation wrap on overflow; shift amounts are taken
//! modulo the width; division by zero is the only failure.

use vstd::prelude::*;
use vstd::arithmetic::div_mod::{
    lemma_div_decreases, lemma_div_nonincreasing, lemma_div_pos_is_pos,
};
use vstd::wrapping::i32_specs;
use crate::expr::Expr;
use crate::numeral::spec_numeral_cast;
use crate::ops::{BinOp, BinOp1, BinOp2, BitShift, UnOp};

verus! {

/// An evaluation failure. Division by zero is the only one: every other
/// operator is total over the fixed-width integer domain.
#[derive(Clone, Copy, Debug, PartialEq, Eq)]
pub enum EvalError {
    DivisionByZero,
}

/// Truncated (toward zero) integer division, as the machine division of the
/// integer domain performs it.
pub open spec fn trunc_div(x: int, d: int) -> int {
    if x == 0 {
        0
    } else if x > 0 && d > 0 {
        x / d
    } else if x < 0 && d < 0 {
        (x * -1) / (d * -1)
    } else if x < 0 {
        ((x * -1) / d) * -1
    } else {
        (x / (d * -1)) * -1
    }
}

/// 32-bit division with a non-zero divisor: truncated toward zero, the one
/// overflowing case wrapping back onto itself.
pub open spec fn spec_div_wrap(a: i32, b: i32) -> i32
    recommends
        b != 0,
{
    if a == i32::MIN && b == -1 {
        i32::MIN
    } else {
        trunc_div(a as int, b as int) as i32
    }
}

/// Away from the one overflowing case, truncated 32-bit division stays in
/// the 32-bit range.
proof fn lemma_trunc_div_in_range(a: i32, b: i32)
    requires
        b != 0,
        !(a == i32::MIN && b == -1),
    ensures
        i32::MIN <= trunc_div(a as int, b as int) <= i32::MAX,
{
    let x = a as int;
    let d = b as int;
    if x == 0 {
    } else if x > 0 && d > 0 {
        lemma_div_pos_is_pos(x, d);
        lemma_div_nonincreasing(x, d);
    } else if x < 0 && d < 0 {
        lemma_div_pos_is_pos(x * -1, d * -1);
        if d == -1 {
            lemma_div_nonincreasing(x * -1, 1);
        } else {
            lemma_div_decreases(x * -1, d * -1);
        }
    } else if x < 0 {
        lemma_div_pos_is_pos(x * -1, d);
        lemma_div_nonincreasing(x * -1, d);
    } else {
        lemma_div_pos_is_pos(x, d * -1);
        lemma_div_nonincreasing(x, d * -1);
    }
}

/// The value of a unary operator applied to a sample: arithmetic negation
/// (wrapping), or bitwise complement for both NOT operators.
pub open spec fn spec_unop_val(op: UnOp, v: i32) -> i32 {
    match op {
        UnOp::Neg => i32_specs::wrapping_sub(0i32, v),
        UnOp::BoolNot => (-1 - v as int) as i32,
        UnOp::BitNot => (-1 - v as int) as i32,
    }
}

/// The result of a binary operator on two samples. Division fails on a zero
/// right operand; everything else is total, wrapping on overflow.
pub open spec fn spec_binop_val(op: BinOp, a: i32, b: i32) -> Result<i32, EvalError> {
    match op {
        BinOp::Two(BinOp2::Add) => Ok(i32_specs::wrapping_add(a, b)),
        BinOp::Two(BinOp2::Sub) => Ok(i32_specs::wrapping_sub(a, b)),
        BinOp::One(BinOp1::Mul) => Ok(i32_specs::wrapping_mul(a, b)),
        BinOp::One(BinOp1::Div) => if b == 0 {
            Err(EvalError::DivisionByZero)
        } else {
            Ok(spec_div_wrap(a, b))
        },
        BinOp::Three(BitShift::Right) => Ok(i32_specs::wrapping_shr(a, b as u32)),
        BinOp::Three(BitShift::Left) => Ok(i32_specs::wrapping_shl(a, b as u32)),
        BinOp::Four(_) => Ok(a & b),
        BinOp::Five(_) => Ok(a ^ b),
        BinOp::Six(_) => Ok(a | b),
    }
}

/// The sample an expression takes at a time value, in the 32-bit integer
/// domain: depth first, left before right, a division by zero propagating
/// without evaluating anything further.
pub open spec fn spec_eval(time: u32, e: Expr) -> Result<i32, EvalError>
    decreases e,
{
    match e {
        Expr::Time => Ok(time as i32),
        Expr::Num(n) => Ok(spec_numeral_cast(n)),
        Expr::UnExpr(op, child) => match spec_eval(time, *child) {
            Ok(v) => Ok(spec_unop_val(op, v)),
            Err(e) => Err(e),
        },
        Expr::BinExpr(left, op, right) => match spec_eval(time, *left) {
            Ok(a) => match spec_eval(time, *right) {
                Ok(b) => spec_binop_val(op, a, b),
                Err(e) => Err(e),
            },
            Err(e) => Err(e),
        },
    }
}

/// Evaluates an expression at a time value in the 32-bit integer domain.
/// The result is a function of the two arguments alone.
pub fn eval(time: u32, expression: &Expr) -> (r: Result<i32, EvalError>)
    ensures
        r == spec_eval(time, *expression),
    decreases *expression,
{
    match expression {
        Expr::Time => Ok(#[verifier::truncate] (time as i32)),
        Expr::Num(n) => Ok(numeral_cast(*n)),
        Expr::UnExpr(op, child) => match eval(time, child) {
            Ok(v) => eval_unop(op, v),
            Err(e) => Err(e),
        },
        Expr::BinExpr(left, op, right) => match eval(time, left) {
            Ok(a) => match eval(time, right) {
                Ok(b) => eval_binop(op, a, b),
                Err(e) => Err(e),
            },
            Err(e) => Err(e),
        },
    }
}

/// The integer-domain value of a numeral: an integer as it stands, a decimal
/// literal truncated toward zero.
fn numeral_cast(n: crate::numeral::Numeral) -> (r: i32)
    ensures
        r == spec_numeral_cast(n),
{
    match n {
        crate::numeral::Numeral::Int(i) => i,
        crate::numeral::Numeral::Float(f) => {
            if f.neg {
                if f.whole >= 0x8000_0000u32 {
                    i32::MIN
                } else {
                    -(f.whole as i32)
                }
            } else {
                if f.whole >= 0x8000_0000u32 {
                    i32::MAX
                } else {
                    f.whole as i32
                }
            }
        },
    }
}

/// Applies a unary operator to a sample. Unary operators are total: this
/// never fails.
fn eval_unop(op: &UnOp, value: i32) -> (r: Result<i32, EvalError>)
    ensures
        r == Ok::<i32, EvalError>(spec_unop_val(*op, value)),
{
    match op {
        UnOp::Neg => Ok(0i32.wrapping_sub(value)),
        UnOp::BoolNot => Ok(-1 - value),
        UnOp::BitNot => Ok(-1 - value),
    }
}

/// Applies a binary operator to two samples; fails exactly on a zero right
/// operand of a division.
fn eval_binop(op: &BinOp, a: i32, b: i32) -> (r: Result<i32, EvalError>)
    ensures
        r == spec_binop_val(*op, a, b),
{
    match op {
        BinOp::Two(BinOp2::Add) => Ok(a.wrapping_add(b)),
        BinOp::Two(BinOp2::Sub) => Ok(a.wrapping_sub(b)),
        BinOp::One(BinOp1::Mul) => Ok(a.wrapping_mul(b)),
        BinOp::One(BinOp1::Div) => {
            if b == 0 {
                Err(EvalError::DivisionByZero)
            } else {
                proof {
                    if !(a == i32::MIN && b == -1) {
                        lemma_trunc_div_in_range(a, b);
                    } else {
                        vstd::arithmetic::div_mod::lemma_div_basics(0x8000_0000int);
                    }
                }
                match a.checked_div(b) {
                    Some(q) => Ok(q),
                    None => Ok(i32::MIN),
                }
            }
        },
        BinOp::Three(BitShift::Right) => Ok(a.wrapping_shr(#[verifier::truncate] (b as u32))),
        BinOp::Three(BitShift::Left) => Ok(a.wrapping_shl(#[verifier::truncate] (b as u32))),
        BinOp::Four(_) => Ok(a & b),
        BinOp::Five(_) => Ok(a ^ b),
        BinOp::Six(_) => Ok(a | b),
    }
}

} // verus!
