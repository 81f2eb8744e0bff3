//! The closed sets of unary and binary operators of the expression language,
//! and the recognizer for a unary-operator token at the head of a string.

use vstd::prelude::*;

verus! {

/// A binary operator, grouped by precedence level: `One` binds tightest
/// (multiplicative), `Six` loosest (bitwise OR).
#[derive(Copy, Clone, Debug, PartialEq)]
pub enum BinOp {
    One(BinOp1),
    Two(BinOp2),
    Three(BitShift),
    Four(BitAnd),
    Five(BitXOr),
    Six(BitOr),
}

/// Multiplicative operators.
#[derive(Copy, Clone, Debug, PartialEq)]
pub enum BinOp1 {
    Mul,
    Div,
}

/// Additive operators.
#[derive(Copy, Clone, Debug, PartialEq)]
pub enum BinOp2 {
    Sub,
    Add,
}

/// Bit-shift operators.
#[derive(Copy, Clone, Debug, PartialEq)]
pub enum BitShift {
    Right,
    Left,
}

/// The bitwise AND operator.
#[derive(Copy, Clone, Debug, PartialEq)]
pub struct BitAnd;

/// The bitwise XOR operator.
#[derive(Copy, Clone, Debug, PartialEq)]
pub struct BitXOr;

/// The bitwise OR operator.
#[derive(Copy, Clone, Debug, PartialEq)]
pub struct BitOr;

/// A unary operator: arithmetic negation, logical NOT, bitwise NOT.
#[derive(Copy, Clone, Debug, Eq, PartialEq)]
pub enum UnOp {
    Neg,
    BoolNot,
    BitNot,
}

/// A unary-operator token at position `pos` of `s`: `!`, `~`, or a `-` that
/// is immediately followed by `(` or a time token (otherwise a `-` opens a
/// negative numeric literal and is no operator). Returns the operator and
/// the position just past it.
pub open spec fn spec_unop_at(s: Seq<char>, pos: int) -> Option<(UnOp, int)> {
    if 0 <= pos < s.len() {
        if s[pos] == '!' {
            Some((UnOp::BoolNot, pos + 1))
        } else if s[pos] == '~' {
            Some((UnOp::BitNot, pos + 1))
        } else if s[pos] == '-' && pos + 1 < s.len() && (s[pos + 1] == '(' || s[pos + 1] == 't'
            || s[pos + 1] == 'T') {
            Some((UnOp::Neg, pos + 1))
        } else {
            None
        }
    } else {
        None
    }
}

/// Recognizes a unary-operator token at position `pos` of `chars`.
pub fn unop_at(chars: &Vec<char>, pos: usize) -> (r: Option<(UnOp, usize)>)
    requires
        pos <= chars@.len(),
    ensures
        match r {
            Some((op, p)) => spec_unop_at(chars@, pos as int) == Some((op, p as int)) && p == pos
                + 1 && p <= chars@.len(),
            None => spec_unop_at(chars@, pos as int) is None,
        },
{
    let len = chars.len();
    if pos >= len {
        return None;
    }
    let c = chars[pos];
    if c == '!' {
        Some((UnOp::BoolNot, pos + 1))
    } else if c == '~' {
        Some((UnOp::BitNot, pos + 1))
    } else if c == '-' && pos + 1 < len {
        let c1 = chars[pos + 1];
        if c1 == '(' || c1 == 't' || c1 == 'T' {
            Some((UnOp::Neg, pos + 1))
        } else {
            None
        }
    } else {
        None
    }
}

/// Recognizes a unary-operator token at the head of `s`, returning the
/// operator and how many characters it consumed.
pub fn unop(s: &str) -> (r: Option<(UnOp, usize)>)
    ensures
        match r {
            Some((op, n)) => spec_unop_at(s@, 0) == Some((op, n as int)),
            None => spec_unop_at(s@, 0) is None,
        },
{
    let len = s.unicode_len();
    if len == 0 {
        return None;
    }
    let c = s.get_char(0);
    if c == '!' {
        Some((UnOp::BoolNot, 1))
    } else if c == '~' {
        Some((UnOp::BitNot, 1))
    } else if c == '-' && len > 1 {
        let c1 = s.get_char(1);
        if c1 == '(' || c1 == 't' || c1 == 'T' {
            Some((UnOp::Neg, 1))
        } else {
            None
        }
    } else {
        None
    }
}

} // verus!
