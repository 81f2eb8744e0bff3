//! Laws of the language, proved once and for all: what integer literals,
//! the time token, and a division by zero denote, for every input they
//! apply to.

use vstd::prelude::*;
use crate::eval::{spec_eval, EvalError};
use crate::expr::Expr;
use crate::numeral::{
    digits_val, is_digit, lemma_digit_end_is, spec_digit_end, spec_number, Numeral,
};
use crate::ops::{spec_unop_at, BinOp, BinOp1, UnOp};
use crate::parser::{is_ws, spec_binexp, spec_factor, spec_level_op, spec_parse, spec_skip_ws};
use crate::signal::spec_sample;

verus! {

/// The character of one decimal digit.
pub open spec fn digit_char(d: int) -> char {
    if d == 0 {
        '0'
    } else if d == 1 {
        '1'
    } else if d == 2 {
        '2'
    } else if d == 3 {
        '3'
    } else if d == 4 {
        '4'
    } else if d == 5 {
        '5'
    } else if d == 6 {
        '6'
    } else if d == 7 {
        '7'
    } else if d == 8 {
        '8'
    } else {
        '9'
    }
}

/// The decimal digits of a magnitude, most significant first.
pub open spec fn dec_digits(m: nat) -> Seq<char>
    decreases m,
{
    if m < 10 {
        seq![digit_char(m as int)]
    } else {
        dec_digits((m / 10) as nat).push(digit_char((m % 10) as int))
    }
}

/// The decimal text of a 32-bit integer: its magnitude's digits, behind a
/// minus sign when it is negative.
pub open spec fn int_text(n: i32) -> Seq<char> {
    if n < 0 {
        seq!['-'] + dec_digits((0 - n as int) as nat)
    } else {
        dec_digits(n as nat)
    }
}

proof fn lemma_dec_digits_are_digits(m: nat)
    ensures
        dec_digits(m).len() >= 1,
        forall|i: int| 0 <= i < dec_digits(m).len() ==> is_digit(#[trigger] dec_digits(m)[i]),
    decreases m,
{
    if m >= 10 {
        lemma_dec_digits_are_digits((m / 10) as nat);
    }
}

proof fn lemma_dec_digits_val(m: nat)
    ensures
        digits_val(dec_digits(m)) == m,
    decreases m,
{
    if m < 10 {
        let s = seq![digit_char(m as int)];
        assert(s.drop_last() =~= Seq::<char>::empty());
        assert(s.last() == digit_char(m as int));
        assert(crate::numeral::digit_val(digit_char(m as int)) == m);
        assert(digits_val(s) == digits_val(s.drop_last()) * 10 + crate::numeral::digit_val(
            s.last(),
        ));
    } else {
        lemma_dec_digits_val((m / 10) as nat);
        let s = dec_digits(m);
        assert(s.drop_last() =~= dec_digits((m / 10) as nat));
        assert(digits_val(s) == digits_val(dec_digits((m / 10) as nat)) * 10 + (m % 10));
    }
}

proof fn lemma_number_of_int_text(n: i32)
    ensures
        spec_number(int_text(n), 0) == Some((Numeral::Int(n), int_text(n).len() as int)),
{
    let s = int_text(n);
    if n >= 0 {
        let m = n as nat;
        lemma_dec_digits_are_digits(m);
        lemma_dec_digits_val(m);
        assert(is_digit(s[0]));
        assert(s[0] != '-');
        lemma_digit_end_is(s, 0, s.len() as int);
        assert(s.subrange(0, s.len() as int) =~= s);
        assert(spec_digit_end(s, 0) == s.len());
        assert(digits_val(s) == m);
    } else {
        let m = (0 - n as int) as nat;
        let d = dec_digits(m);
        lemma_dec_digits_are_digits(m);
        lemma_dec_digits_val(m);
        assert(s[0] == '-');
        assert(s.len() == 1 + d.len());
        assert(forall|i: int| 1 <= i < s.len() ==> is_digit(#[trigger] s[i]) && !is_ws(s[i]))
            by {
            assert(forall|i: int| 1 <= i < s.len() ==> s[i] == #[trigger] d[i - 1]);
        }
        lemma_digit_end_is(s, 1, s.len() as int);
        assert(s.subrange(1, s.len() as int) =~= d);
        assert(digits_val(s.subrange(1, s.len() as int)) == m);
        assert(m <= 0x8000_0000);
    }
}

proof fn lemma_factor_of_int_text(n: i32)
    ensures
        spec_factor(int_text(n), 0) == Some((Expr::Num(Numeral::Int(n)), int_text(n).len() as int)),
{
    let s = int_text(n);
    lemma_number_of_int_text(n);
    if n >= 0 {
        lemma_dec_digits_are_digits(n as nat);
        assert(is_digit(s[0]));
        assert(!is_ws(s[0]));
        assert(spec_skip_ws(s, 0) == 0);
        assert(spec_unop_at(s, 0) is None);
        assert(s[0] != 't' && s[0] != 'T' && s[0] != '(');
    } else {
        let d = dec_digits((0 - n as int) as nat);
        lemma_dec_digits_are_digits((0 - n as int) as nat);
        assert(s[0] == '-');
        assert(!is_ws(s[0]));
        assert(spec_skip_ws(s, 0) == 0);
        assert(s[1] == d[0]);
        assert(is_digit(s[1]));
        assert(s[1] != '(' && s[1] != 't' && s[1] != 'T');
        assert(spec_unop_at(s, 0) is None);
    }
}

/// Where a factor's end is followed by nothing but whitespace, every
/// precedence level parses to exactly that factor: no operator can follow.
proof fn lemma_binexp_at_end(s: Seq<char>, pos: int, level: int)
    requires
        1 <= level <= 6,
        spec_factor(s, pos) is Some,
        spec_skip_ws(s, spec_factor(s, pos).unwrap().1) == s.len(),
    ensures
        spec_binexp(s, pos, level) == spec_factor(s, pos),
    decreases level,
{
    if level > 1 {
        lemma_binexp_at_end(s, pos, level - 1);
    }
    assert(spec_level_op(s, s.len() as int, level) is None);
}

/// For every 32-bit integer `n`: the decimal text of `n` parses to exactly
/// the literal `n`, and that literal evaluates to `n` at every time value —
/// a literal does not depend on time.
pub proof fn law_integer_literal(n: i32, t: u32)
    ensures
        spec_parse(int_text(n)) == Some(Expr::Num(Numeral::Int(n))),
        spec_eval(t, Expr::Num(Numeral::Int(n))) == Ok::<i32, EvalError>(n),
{
    let s = int_text(n);
    lemma_factor_of_int_text(n);
    assert(spec_skip_ws(s, s.len() as int) == s.len());
    lemma_binexp_at_end(s, 0, 6);
}

/// The time token parses to the time reference, in either spelling, and the
/// time reference evaluates at time `t` to exactly `t` carried into the
/// 32-bit domain — including the wraparound at the domain's boundary.
pub proof fn law_time(t: u32)
    ensures
        spec_parse("t"@) == Some(Expr::Time),
        spec_parse("T"@) == Some(Expr::Time),
        spec_eval(t, Expr::Time) == Ok::<i32, EvalError>(t as i32),
        t <= i32::MAX ==> spec_eval(t, Expr::Time) == Ok::<i32, EvalError>(t as i32) && t as i32
            == t,
{
    reveal_strlit("t");
    reveal_strlit("T");
    reveal_with_fuel(spec_skip_ws, 3);
    reveal_with_fuel(spec_factor, 2);
    reveal_with_fuel(spec_binexp, 8);
    assert(spec_factor("t"@, 0) == Some((Expr::Time, 1int)));
    assert(spec_binexp("t"@, 0, 6) == Some((Expr::Time, 1int)));
    assert(spec_factor("T"@, 0) == Some((Expr::Time, 1int)));
    assert(spec_binexp("T"@, 0, 6) == Some((Expr::Time, 1int)));
}

/// The expression behind the text `t / 0`.
pub open spec fn div_by_zero_tree() -> Expr {
    Expr::BinExpr(
        Box::new(Expr::Time),
        BinOp::One(BinOp1::Div),
        Box::new(Expr::Num(Numeral::Int(0))),
    )
}

#[verifier::rlimit(40)]
proof fn lemma_parse_div_by_zero()
    ensures
        spec_parse("t / 0"@) == Some(div_by_zero_tree()),
{
    reveal_strlit("t / 0");
    let s = "t / 0"@;
    assert(s.len() == 5);
    reveal_with_fuel(spec_skip_ws, 4);
    reveal_with_fuel(spec_factor, 3);
    reveal_with_fuel(spec_binexp, 10);
    reveal_with_fuel(spec_digit_end, 3);
    reveal_with_fuel(digits_val, 3);
    let zero = Expr::Num(Numeral::Int(0));
    let tree = div_by_zero_tree();
    assert(spec_number(s, 4) == Some((Numeral::Int(0), 5int)));
    assert(spec_factor(s, 3) == Some((zero, 5int)));
    assert(spec_factor(s, 0) == Some((Expr::Time, 1int)));
    assert(spec_binexp(s, 3, 1) == Some((zero, 5int)));
    assert(spec_binexp(s, 0, 1) == Some((tree, 5int)));
    assert(spec_binexp(s, 0, 6) == Some((tree, 5int)));
    assert(spec_parse(s) == Some(tree));
}

/// Division by zero never raises: `t / 0` parses, its evaluation fails at
/// every time value, and the sample stream of a generator built from it is
/// zero at every time step — the generator stays usable throughout.
pub proof fn law_division_by_zero_is_silent(t: u32)
    ensures
        spec_parse("t / 0"@) == Some(div_by_zero_tree()),
        spec_eval(t, div_by_zero_tree()) == Err::<i32, EvalError>(EvalError::DivisionByZero),
        spec_sample(div_by_zero_tree(), t) == 0,
{
    lemma_parse_div_by_zero();
    reveal_with_fuel(spec_eval, 3);
    assert(spec_eval(t, Expr::Num(Numeral::Int(0))) == Ok::<i32, EvalError>(0));
    assert(spec_eval(t, Expr::Time) == Ok::<i32, EvalError>(t as i32));
}

/// The one-token disambiguation of the leading minus: `-(1)` is the unary
/// negation of the literal `1`, while `-1` is the single negative literal —
/// two different trees, though they evaluate alike.
#[verifier::rlimit(40)]
pub proof fn law_minus_disambiguation()
    ensures
        spec_parse("-(1)"@) == Some(
            Expr::UnExpr(UnOp::Neg, Box::new(Expr::Num(Numeral::Int(1)))),
        ),
        spec_parse("-1"@) == Some(Expr::Num(Numeral::Int(-1i32))),
        spec_parse("-(1)"@) != spec_parse("-1"@),
{
    reveal_strlit("-(1)");
    reveal_strlit("-1");
    let s = "-(1)"@;
    assert(s.len() == 4);
    reveal_with_fuel(spec_skip_ws, 3);
    reveal_with_fuel(spec_factor, 4);
    reveal_with_fuel(spec_binexp, 10);
    reveal_with_fuel(spec_digit_end, 3);
    reveal_with_fuel(digits_val, 3);
    let one = Expr::Num(Numeral::Int(1));
    assert(spec_number(s, 2) == Some((Numeral::Int(1), 3int)));
    assert(spec_factor(s, 2) == Some((one, 3int)));
    assert(spec_binexp(s, 2, 1) == Some((one, 3int)));
    assert(spec_binexp(s, 2, 2) == Some((one, 3int)));
    assert(spec_binexp(s, 2, 3) == Some((one, 3int)));
    assert(spec_binexp(s, 2, 4) == Some((one, 3int)));
    assert(spec_binexp(s, 2, 5) == Some((one, 3int)));
    assert(spec_binexp(s, 2, 6) == Some((one, 3int)));
    let neg = Expr::UnExpr(UnOp::Neg, Box::new(one));
    assert(spec_factor(s, 0) == Some((neg, 4int)));
    assert(spec_binexp(s, 0, 6) == Some((neg, 4int)));
    assert(spec_parse(s) == Some(neg));
    let s2 = "-1"@;
    assert(s2.len() == 2);
    assert(spec_number(s2, 0) == Some((Numeral::Int(-1i32), 2int)));
    assert(spec_factor(s2, 0) == Some((Expr::Num(Numeral::Int(-1i32)), 2int)));
    assert(spec_binexp(s2, 0, 6) == Some((Expr::Num(Numeral::Int(-1i32)), 2int)));
    assert(spec_parse(s2) == Some(Expr::Num(Numeral::Int(-1i32))));
}


/// Where an expression of one level ends with nothing but whitespace after
/// it, every looser level parses to exactly that expression.
proof fn lemma_binexp_levels(s: Seq<char>, pos: int, lo: int, hi: int)
    requires
        1 <= lo <= hi <= 6,
        spec_binexp(s, pos, lo) is Some,
        spec_skip_ws(s, spec_binexp(s, pos, lo).unwrap().1) == s.len(),
    ensures
        spec_binexp(s, pos, hi) == spec_binexp(s, pos, lo),
    decreases hi - lo,
{
    if hi > lo {
        lemma_binexp_levels(s, pos, lo, hi - 1);
        assert(spec_level_op(s, s.len() as int, hi) is None);
    }
}

/// The multiplicative level binds tighter than the additive one: the text
/// `1 + 2 * 3` denotes the sum of `1` and the product `2 * 3`, and so
/// evaluates to `7` — never to `9` — at every time value.
#[verifier::rlimit(60)]
pub proof fn law_mul_binds_tighter_than_add(t: u32)
    ensures
        spec_parse("1 + 2 * 3"@) == Some(
            Expr::BinExpr(
                Box::new(Expr::Num(Numeral::Int(1))),
                BinOp::Two(crate::ops::BinOp2::Add),
                Box::new(
                    Expr::BinExpr(
                        Box::new(Expr::Num(Numeral::Int(2))),
                        BinOp::One(BinOp1::Mul),
                        Box::new(Expr::Num(Numeral::Int(3))),
                    ),
                ),
            ),
        ),
        spec_eval(t, spec_parse("1 + 2 * 3"@).unwrap()) == Ok::<i32, EvalError>(7),
{
    reveal_strlit("1 + 2 * 3");
    let s = "1 + 2 * 3"@;
    assert(s.len() == 9);
    reveal_with_fuel(spec_skip_ws, 3);
    reveal_with_fuel(spec_factor, 2);
    reveal_with_fuel(spec_binexp, 2);
    reveal_with_fuel(spec_digit_end, 3);
    reveal_with_fuel(digits_val, 3);
    let one = Expr::Num(Numeral::Int(1));
    let two = Expr::Num(Numeral::Int(2));
    let three = Expr::Num(Numeral::Int(3));
    assert(spec_number(s, 0) == Some((Numeral::Int(1), 1int)));
    assert(spec_number(s, 4) == Some((Numeral::Int(2), 5int)));
    assert(spec_number(s, 8) == Some((Numeral::Int(3), 9int)));
    assert(spec_factor(s, 0) == Some((one, 1int)));
    assert(spec_factor(s, 3) == Some((two, 5int)));
    assert(spec_factor(s, 7) == Some((three, 9int)));
    assert(spec_skip_ws(s, 1) == 2);
    assert(spec_skip_ws(s, 5) == 6);
    assert(spec_skip_ws(s, 9) == 9);
    assert(spec_binexp(s, 7, 1) == Some((three, 9int)));
    assert(spec_binexp(s, 3, 1) == Some(
        (Expr::BinExpr(Box::new(two), BinOp::One(BinOp1::Mul), Box::new(three)), 9int),
    ));
    let prod = Expr::BinExpr(Box::new(two), BinOp::One(BinOp1::Mul), Box::new(three));
    assert(spec_binexp(s, 0, 1) == Some((one, 1int)));
    assert(spec_binexp(s, 3, 2) == Some((prod, 9int)));
    let sum = Expr::BinExpr(Box::new(one), BinOp::Two(crate::ops::BinOp2::Add), Box::new(prod));
    assert(spec_binexp(s, 0, 2) == Some((sum, 9int)));
    lemma_binexp_levels(s, 0, 2, 6);
    assert(spec_parse(s) == Some(sum));
    reveal_with_fuel(spec_eval, 3);
    assert(spec_eval(t, prod) == Ok::<i32, EvalError>(6));
    assert(spec_eval(t, sum) == Ok::<i32, EvalError>(7));
}

/// Bitwise AND binds tighter than bitwise OR: the text `1 | 2 & 3` denotes
/// `1` OR-ed with the conjunction `2 & 3`, and so evaluates to `3` at every
/// time value.
#[verifier::rlimit(60)]
pub proof fn law_and_binds_tighter_than_or(t: u32)
    ensures
        spec_parse("1 | 2 & 3"@) == Some(
            Expr::BinExpr(
                Box::new(Expr::Num(Numeral::Int(1))),
                BinOp::Six(crate::ops::BitOr),
                Box::new(
                    Expr::BinExpr(
                        Box::new(Expr::Num(Numeral::Int(2))),
                        BinOp::Four(crate::ops::BitAnd),
                        Box::new(Expr::Num(Numeral::Int(3))),
                    ),
                ),
            ),
        ),
        spec_eval(t, spec_parse("1 | 2 & 3"@).unwrap()) == Ok::<i32, EvalError>(3),
{
    reveal_strlit("1 | 2 & 3");
    let s = "1 | 2 & 3"@;
    assert(s.len() == 9);
    reveal_with_fuel(spec_skip_ws, 3);
    reveal_with_fuel(spec_factor, 2);
    reveal_with_fuel(spec_binexp, 2);
    reveal_with_fuel(spec_digit_end, 3);
    reveal_with_fuel(digits_val, 3);
    let one = Expr::Num(Numeral::Int(1));
    let two = Expr::Num(Numeral::Int(2));
    let three = Expr::Num(Numeral::Int(3));
    assert(spec_number(s, 0) == Some((Numeral::Int(1), 1int)));
    assert(spec_number(s, 4) == Some((Numeral::Int(2), 5int)));
    assert(spec_number(s, 8) == Some((Numeral::Int(3), 9int)));
    assert(spec_factor(s, 0) == Some((one, 1int)));
    assert(spec_factor(s, 3) == Some((two, 5int)));
    assert(spec_factor(s, 7) == Some((three, 9int)));
    assert(spec_skip_ws(s, 1) == 2);
    assert(spec_skip_ws(s, 5) == 6);
    assert(spec_skip_ws(s, 9) == 9);
    assert(spec_binexp(s, 7, 1) == Some((three, 9int)));
    assert(spec_binexp(s, 7, 2) == Some((three, 9int)));
    assert(spec_binexp(s, 7, 3) == Some((three, 9int)));
    assert(spec_binexp(s, 0, 1) == Some((one, 1int)));
    assert(spec_binexp(s, 0, 2) == Some((one, 1int)));
    assert(spec_binexp(s, 0, 3) == Some((one, 1int)));
    assert(spec_binexp(s, 3, 1) == Some((two, 5int)));
    assert(spec_binexp(s, 3, 2) == Some((two, 5int)));
    assert(spec_binexp(s, 3, 3) == Some((two, 5int)));
    let conj = Expr::BinExpr(Box::new(two), BinOp::Four(crate::ops::BitAnd), Box::new(three));
    assert(spec_binexp(s, 3, 4) == Some((conj, 9int)));
    assert(spec_binexp(s, 3, 5) == Some((conj, 9int)));
    assert(spec_binexp(s, 0, 4) == Some((one, 1int)));
    assert(spec_binexp(s, 0, 5) == Some((one, 1int)));
    let disj = Expr::BinExpr(Box::new(one), BinOp::Six(crate::ops::BitOr), Box::new(conj));
    assert(spec_binexp(s, 3, 6) == Some((conj, 9int)));
    assert(spec_binexp(s, 0, 6) == Some((disj, 9int)));
    assert(spec_parse(s) == Some(disj));
    reveal_with_fuel(spec_eval, 3);
    assert(2i32 & 3i32 == 2i32) by (bit_vector);
    assert(1i32 | 2i32 == 3i32) by (bit_vector);
    assert(spec_eval(t, conj) == Ok::<i32, EvalError>(2));
    assert(spec_eval(t, disj) == Ok::<i32, EvalError>(3));
}

} // verus!
