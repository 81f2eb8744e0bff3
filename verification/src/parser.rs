//! The parser: source text to expression tree, by recursive descent, one
//! level per binding strength. Bitwise OR binds loosest, then XOR, AND,
//! shift, additive, multiplicative; unary operators bind tightest. A run of
//! operators of one level chains to the right. Whitespace between tokens is
//! insignificant; trailing input after a complete expression is an error.
//!
//! `spec_parse` is the mathematical definition of the grammar; the executable
//! parser returns exactly what it denotes.

use vstd::prelude::*;
use crate::expr::Expr;
use crate::numeral::{number_at, spec_number, text_chars};
use crate::ops::{spec_unop_at, unop_at, BinOp, BinOp1, BinOp2, BitOr, BitShift, BitAnd, BitXOr};

verus! {

/// A parse failure, with the position (in characters) of the input it could
/// not consume.
#[derive(Clone, Copy, Debug, PartialEq, Eq)]
pub struct ParseError {
    pub position: usize,
}

/// ASCII whitespace, insignificant between tokens.
pub open spec fn is_ws(c: char) -> bool {
    c == ' ' || c == '\t' || c == '\r' || c == '\n'
}

/// The first position at or after `pos` holding something other than
/// whitespace (the length of the sequence if nothing does).
pub open spec fn spec_skip_ws(s: Seq<char>, pos: int) -> int
    decreases s.len() - pos,
{
    if 0 <= pos < s.len() && is_ws(s[pos]) {
        spec_skip_ws(s, pos + 1)
    } else {
        pos
    }
}

/// The binary-operator token of one precedence level at position `pos`:
/// multiplicative (level 1), additive (2), shift (3), AND (4), XOR (5),
/// OR (6). Returns the operator and the position just past it.
pub open spec fn spec_level_op(s: Seq<char>, pos: int, level: int) -> Option<(BinOp, int)> {
    if 0 <= pos < s.len() {
        let c = s[pos];
        if level == 1 {
            if c == '*' {
                Some((BinOp::One(BinOp1::Mul), pos + 1))
            } else if c == '/' {
                Some((BinOp::One(BinOp1::Div), pos + 1))
            } else {
                None
            }
        } else if level == 2 {
            if c == '+' {
                Some((BinOp::Two(BinOp2::Add), pos + 1))
            } else if c == '-' {
                Some((BinOp::Two(BinOp2::Sub), pos + 1))
            } else {
                None
            }
        } else if level == 3 {
            if c == '>' && pos + 1 < s.len() && s[pos + 1] == '>' {
                Some((BinOp::Three(BitShift::Right), pos + 2))
            } else if c == '<' && pos + 1 < s.len() && s[pos + 1] == '<' {
                Some((BinOp::Three(BitShift::Left), pos + 2))
            } else {
                None
            }
        } else if level == 4 {
            if c == '&' {
                Some((BinOp::Four(BitAnd), pos + 1))
            } else {
                None
            }
        } else if level == 5 {
            if c == '^' {
                Some((BinOp::Five(BitXOr), pos + 1))
            } else {
                None
            }
        } else {
            if c == '|' {
                Some((BinOp::Six(BitOr), pos + 1))
            } else {
                None
            }
        }
    } else {
        None
    }
}

/// A factor at position `pos`: a time token, a numeric literal, a
/// parenthesized expression, or a unary operator applied to a factor.
pub open spec fn spec_factor(s: Seq<char>, pos: int) -> Option<(Expr, int)>
    decreases s.len() - pos, 0int,
{
    let j = spec_skip_ws(s, pos);
    if !(pos <= j && j < s.len()) {
        None
    } else {
        match spec_unop_at(s, j) {
            Some((op, p)) => {
                if j < p && p <= s.len() {
                    match spec_factor(s, p) {
                        Some((e, q)) => Some((Expr::UnExpr(op, Box::new(e)), q)),
                        None => None,
                    }
                } else {
                    None
                }
            },
            None => {
                let c = s[j];
                if c == 't' || c == 'T' {
                    Some((Expr::Time, j + 1))
                } else if c == '(' {
                    match spec_binexp(s, j + 1, 6) {
                        Some((e, p)) => {
                            let q = spec_skip_ws(s, p);
                            if 0 <= q && q < s.len() && s[q] == ')' {
                                Some((e, q + 1))
                            } else {
                                None
                            }
                        },
                        None => None,
                    }
                } else {
                    match spec_number(s, j) {
                        Some((n, p)) => Some((Expr::Num(n), p)),
                        None => None,
                    }
                }
            },
        }
    }
}

/// An expression of one precedence level at position `pos`: an operand of
/// the next-tighter level, optionally followed by this level's operator and
/// another expression of this level — so a run of one level's operators
/// chains to the right.
pub open spec fn spec_binexp(s: Seq<char>, pos: int, level: int) -> Option<(Expr, int)>
    decreases s.len() - pos, level,
{
    if level < 1 {
        None
    } else {
        let lower = if level == 1 {
            spec_factor(s, pos)
        } else {
            spec_binexp(s, pos, level - 1)
        };
        match lower {
            None => None,
            Some((left, p1)) => {
                let j = spec_skip_ws(s, p1);
                match spec_level_op(s, j, level) {
                    Some((op, p2)) => {
                        if pos < p2 && p2 <= s.len() {
                            match spec_binexp(s, p2, level) {
                                Some((right, p3)) => Some(
                                    (Expr::BinExpr(Box::new(left), op, Box::new(right)), p3),
                                ),
                                None => None,
                            }
                        } else {
                            None
                        }
                    },
                    None => Some((left, p1)),
                }
            },
        }
    }
}

/// The expression an entire text denotes: a full-precedence expression with
/// nothing but whitespace after it, or nothing.
pub open spec fn spec_parse(s: Seq<char>) -> Option<Expr> {
    match spec_binexp(s, 0, 6) {
        Some((e, p)) => if spec_skip_ws(s, p) == s.len() {
            Some(e)
        } else {
            None
        },
        None => None,
    }
}

/// Whether a character is token-separating whitespace.
fn is_ws_char(c: char) -> (b: bool)
    ensures
        b == is_ws(c),
{
    c == ' ' || c == '\t' || c == '\r' || c == '\n'
}

/// Advances past whitespace.
fn skip_ws(chars: &Vec<char>, pos: usize) -> (r: usize)
    requires
        pos <= chars@.len(),
    ensures
        r as int == spec_skip_ws(chars@, pos as int),
        pos <= r <= chars@.len(),
{
    let len = chars.len();
    let mut i = pos;
    while i < len && is_ws_char(chars[i])
        invariant
            pos <= i <= len,
            len == chars@.len(),
            spec_skip_ws(chars@, pos as int) == spec_skip_ws(chars@, i as int),
        decreases len - i,
    {
        i += 1;
    }
    i
}

/// Recognizes one precedence level's operator token.
fn level_op_at(chars: &Vec<char>, pos: usize, level: u8) -> (r: Option<(BinOp, usize)>)
    requires
        pos <= chars@.len(),
        1 <= level <= 6,
    ensures
        match r {
            Some((op, p)) => spec_level_op(chars@, pos as int, level as int) == Some(
                (op, p as int),
            ) && pos < p <= chars@.len(),
            None => spec_level_op(chars@, pos as int, level as int) is None,
        },
{
    let len = chars.len();
    if pos >= len {
        return None;
    }
    let c = chars[pos];
    if level == 1 {
        if c == '*' {
            Some((BinOp::One(BinOp1::Mul), pos + 1))
        } else if c == '/' {
            Some((BinOp::One(BinOp1::Div), pos + 1))
        } else {
            None
        }
    } else if level == 2 {
        if c == '+' {
            Some((BinOp::Two(BinOp2::Add), pos + 1))
        } else if c == '-' {
            Some((BinOp::Two(BinOp2::Sub), pos + 1))
        } else {
            None
        }
    } else if level == 3 {
        if c == '>' && pos + 1 < len && chars[pos + 1] == '>' {
            Some((BinOp::Three(BitShift::Right), pos + 2))
        } else if c == '<' && pos + 1 < len && chars[pos + 1] == '<' {
            Some((BinOp::Three(BitShift::Left), pos + 2))
        } else {
            None
        }
    } else if level == 4 {
        if c == '&' {
            Some((BinOp::Four(BitAnd), pos + 1))
        } else {
            None
        }
    } else if level == 5 {
        if c == '^' {
            Some((BinOp::Five(BitXOr), pos + 1))
        } else {
            None
        }
    } else {
        if c == '|' {
            Some((BinOp::Six(BitOr), pos + 1))
        } else {
            None
        }
    }
}

/// Parses a factor; on failure gives the position that could not open one.
fn parse_factor(chars: &Vec<char>, pos: usize) -> (r: Result<(Expr, usize), usize>)
    requires
        pos <= chars@.len(),
    ensures
        match r {
            Ok((e, p)) => spec_factor(chars@, pos as int) == Some((e, p as int)) && pos < p
                <= chars@.len(),
            Err(_) => spec_factor(chars@, pos as int) is None,
        },
    decreases chars@.len() - pos, 0int,
{
    let len = chars.len();
    let j = skip_ws(chars, pos);
    if j >= len {
        return Err(j);
    }
    match unop_at(chars, j) {
        Some((op, p)) => match parse_factor(chars, p) {
            Ok((e, q)) => Ok((Expr::UnExpr(op, Box::new(e)), q)),
            Err(q) => Err(q),
        },
        None => {
            let c = chars[j];
            if c == 't' || c == 'T' {
                Ok((Expr::Time, j + 1))
            } else if c == '(' {
                match parse_binexp(chars, j + 1, 6) {
                    Ok((e, p)) => {
                        let q = skip_ws(chars, p);
                        if q < len && chars[q] == ')' {
                            Ok((e, q + 1))
                        } else {
                            Err(q)
                        }
                    },
                    Err(q) => Err(q),
                }
            } else {
                match number_at(chars, j) {
                    Some((n, p)) => Ok((Expr::Num(n), p)),
                    None => Err(j),
                }
            }
        },
    }
}

/// Parses one precedence level's expression; on failure gives a position it
/// could not consume.
fn parse_binexp(chars: &Vec<char>, pos: usize, level: u8) -> (r: Result<(Expr, usize), usize>)
    requires
        pos <= chars@.len(),
        1 <= level <= 6,
    ensures
        match r {
            Ok((e, p)) => spec_binexp(chars@, pos as int, level as int) == Some((e, p as int))
                && pos < p <= chars@.len(),
            Err(_) => spec_binexp(chars@, pos as int, level as int) is None,
        },
    decreases chars@.len() - pos, level as int,
{
    let lower = if level == 1 {
        parse_factor(chars, pos)
    } else {
        parse_binexp(chars, pos, level - 1)
    };
    match lower {
        Err(q) => Err(q),
        Ok((left, p1)) => {
            let j = skip_ws(chars, p1);
            match level_op_at(chars, j, level) {
                None => Ok((left, p1)),
                Some((op, p2)) => match parse_binexp(chars, p2, level) {
                    Ok((right, p3)) => Ok(
                        (Expr::BinExpr(Box::new(left), op, Box::new(right)), p3),
                    ),
                    Err(q) => Err(q),
                },
            }
        },
    }
}

/// Parses a whole source text into its expression tree. Succeeds on exactly
/// the texts that denote an expression — `spec_parse` — and returns exactly
/// the tree they denote; anything else is a `ParseError`.
pub fn parse(input: &str) -> (r: Result<Expr, ParseError>)
    ensures
        match r {
            Ok(e) => spec_parse(input@) == Some(e),
            Err(_) => spec_parse(input@) is None,
        },
{
    let chars = text_chars(input);
    match parse_binexp(&chars, 0, 6) {
        Err(p) => Err(ParseError { position: p }),
        Ok((e, p)) => {
            let q = skip_ws(&chars, p);
            if q == chars.len() {
                Ok(e)
            } else {
                Err(ParseError { position: q })
            }
        },
    }
}

} // verus!
