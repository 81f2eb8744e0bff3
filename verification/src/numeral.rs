//! Numeric literals of the expression language.
//!
//! A literal is an integer unless it contains a decimal point, in which case
//! it is a decimal literal. A decimal literal is kept as its sign and its
//! whole (pre-point) part; the evaluator's integer domain reads exactly that
//! truncated-toward-zero value from it.

use vstd::prelude::*;

verus! {

/// A decimal (pointed) literal: its sign and its whole part. The fractional
/// digits are consumed by the parser but carry no information the integer
/// evaluation domain can observe, so they are not retained.
#[derive(Clone, Copy, Debug, PartialEq, Eq)]
pub struct FloatLit {
    pub neg: bool,
    pub whole: u32,
}

/// A numeric literal: a decimal (pointed) literal or a 32-bit signed integer.
#[derive(Clone, Copy, Debug, PartialEq)]
pub enum Numeral {
    Float(FloatLit),
    Int(i32),
}

impl From<i32> for Numeral {
    fn from(num: i32) -> (r: Numeral) {
        Numeral::Int(num)
    }
}

impl vstd::std_specs::convert::FromSpecImpl<i32> for Numeral {
    open spec fn obeys_from_spec() -> bool {
        true
    }

    open spec fn from_spec(num: i32) -> Numeral {
        Numeral::Int(num)
    }
}

/// The value a decimal literal takes in the 32-bit integer domain:
/// truncation toward zero, saturated at the domain's bounds.
pub open spec fn spec_float_trunc(f: FloatLit) -> i32 {
    if f.neg {
        if f.whole >= 0x8000_0000u32 {
            i32::MIN
        } else {
            (0 - f.whole as int) as i32
        }
    } else {
        if f.whole >= 0x8000_0000u32 {
            i32::MAX
        } else {
            f.whole as i32
        }
    }
}

/// The value a numeral takes in the 32-bit integer domain.
pub open spec fn spec_numeral_cast(n: Numeral) -> i32 {
    match n {
        Numeral::Int(i) => i,
        Numeral::Float(f) => spec_float_trunc(f),
    }
}

/// A decimal digit.
pub open spec fn is_digit(c: char) -> bool {
    48 <= c as int <= 57
}

/// The numeric value of a decimal digit.
pub open spec fn digit_val(c: char) -> int {
    c as int - 48
}

/// The first position at or after `pos` that does not hold a decimal digit
/// (the end of the digit run starting at `pos`).
pub open spec fn spec_digit_end(s: Seq<char>, pos: int) -> int
    decreases s.len() - pos,
{
    if 0 <= pos < s.len() && is_digit(s[pos]) {
        spec_digit_end(s, pos + 1)
    } else {
        pos
    }
}

/// The value of a sequence of decimal digits, most significant first.
pub open spec fn digits_val(ds: Seq<char>) -> int
    decreases ds.len(),
{
    if ds.len() == 0 {
        0
    } else {
        digits_val(ds.drop_last()) * 10 + digit_val(ds.last())
    }
}

/// The largest magnitude a literal may have: one more for a negated literal,
/// as in the two's complement integer domain.
pub open spec fn magnitude_limit(neg: bool) -> int {
    if neg {
        0x8000_0000
    } else {
        0x7fff_ffff
    }
}

/// A numeric literal at position `pos` of `s`: an optional leading `-`, a
/// non-empty run of digits, and optionally a decimal point with a (possibly
/// empty) run of fractional digits. A literal whose whole part exceeds the
/// 32-bit integer domain is rejected. Returns the numeral and the position
/// just past it.
pub open spec fn spec_number(s: Seq<char>, pos: int) -> Option<(Numeral, int)> {
    if 0 <= pos < s.len() {
        let neg = s[pos] == '-';
        let start = if neg {
            pos + 1
        } else {
            pos
        };
        let k = spec_digit_end(s, start);
        if k == start {
            None
        } else {
            let w = digits_val(s.subrange(start, k));
            if w > magnitude_limit(neg) {
                None
            } else if k < s.len() && s[k] == '.' {
                let m = spec_digit_end(s, k + 1);
                Some((Numeral::Float(FloatLit { neg, whole: w as u32 }), m))
            } else {
                let v = if neg {
                    0 - w
                } else {
                    w
                };
                Some((Numeral::Int(v as i32), k))
            }
        }
    } else {
        None
    }
}

/// A position bounds a digit run exactly when everything before it (from the
/// start) is a digit and it does not hold a digit itself.
pub proof fn lemma_digit_end_is(s: Seq<char>, start: int, i: int)
    requires
        0 <= start <= i <= s.len(),
        forall|m: int| start <= m < i ==> is_digit(#[trigger] s[m]),
        i < s.len() ==> !is_digit(s[i]),
    ensures
        spec_digit_end(s, start) == i,
    decreases i - start,
{
    if start < i {
        lemma_digit_end_is(s, start + 1, i);
    }
}

/// The characters of a string, in order, as a vector.
pub fn text_chars(s: &str) -> (v: Vec<char>)
    ensures
        v@ == s@,
{
    let len = s.unicode_len();
    let mut v: Vec<char> = Vec::new();
    let mut i: usize = 0;
    while i < len
        invariant
            0 <= i <= len,
            len == s@.len(),
            v@ =~= s@.subrange(0, i as int),
        decreases len - i,
    {
        v.push(s.get_char(i));
        i += 1;
    }
    proof {
        assert(v@ =~= s@);
    }
    v
}

/// Whether a character is a decimal digit.
pub fn is_digit_char(c: char) -> (b: bool)
    ensures
        b == is_digit(c),
{
    let u = c as u32;
    48 <= u && u <= 57
}

/// Scans the digit run beginning at `from`, returning its end.
pub fn scan_digits(chars: &Vec<char>, from: usize) -> (k: usize)
    requires
        from <= chars@.len(),
    ensures
        k as int == spec_digit_end(chars@, from as int),
        from <= k <= chars@.len(),
        forall|m: int| from <= m < k ==> is_digit(#[trigger] chars@[m]),
    decreases chars@.len() - from,
{
    let len = chars.len();
    let mut i = from;
    while i < len && is_digit_char(chars[i])
        invariant
            from <= i <= len,
            len == chars@.len(),
            forall|m: int| from <= m < i ==> is_digit(#[trigger] chars@[m]),
        decreases len - i,
    {
        i += 1;
    }
    proof {
        lemma_digit_end_is(chars@, from as int, i as int);
    }
    i
}

/// Parses a numeric literal at position `pos` of `chars`, exactly as
/// `spec_number` describes one; a successful parse consumes at least one
/// character.
pub fn number_at(chars: &Vec<char>, pos: usize) -> (r: Option<(Numeral, usize)>)
    requires
        pos <= chars@.len(),
    ensures
        match r {
            Some((n, end)) => spec_number(chars@, pos as int) == Some((n, end as int)) && pos < end
                <= chars@.len(),
            None => spec_number(chars@, pos as int) is None,
        },
{
    let len = chars.len();
    if pos >= len {
        return None;
    }
    let neg = chars[pos] == '-';
    let start = if neg {
        pos + 1
    } else {
        pos
    };
    if start > len {
        return None;
    }
    let k = scan_digits(chars, start);
    if k == start {
        return None;
    }
    let limit: u32 = if neg {
        0x8000_0000
    } else {
        0x7fff_ffff
    };
    proof {
        assert(limit as int == magnitude_limit(neg));
    }
    let mut acc: u32 = 0;
    let mut over = false;
    let mut i = start;
    proof {
        assert(chars@.subrange(start as int, start as int) =~= Seq::<char>::empty());
    }
    while i < k
        invariant
            start <= i <= k <= chars@.len(),
            limit as int == magnitude_limit(neg),
            forall|m: int| start <= m < k ==> is_digit(#[trigger] chars@[m]),
            !over ==> acc as int == digits_val(chars@.subrange(start as int, i as int)) && acc
                <= limit,
            over ==> digits_val(chars@.subrange(start as int, i as int)) > limit,
        decreases k - i,
    {
        let u = chars[i] as u32;
        let d = u - 48;
        proof {
            assert(chars@.subrange(start as int, i + 1).drop_last() =~= chars@.subrange(
                start as int,
                i as int,
            ));
            assert(digits_val(chars@.subrange(start as int, i + 1)) == digits_val(
                chars@.subrange(start as int, i as int),
            ) * 10 + digit_val(chars@[i as int]));
        }
        if over {
        } else if acc > limit / 10 || (acc == limit / 10 && d > limit % 10) {
            over = true;
        } else {
            acc = acc * 10 + d;
        }
        i += 1;
    }
    if over {
        return None;
    }
    if k < len && chars[k] == '.' {
        let m = scan_digits(chars, k + 1);
        Some((Numeral::Float(FloatLit { neg, whole: acc }), m))
    } else {
        let v: i32 = if neg {
            if acc == 0x8000_0000u32 {
                i32::MIN
            } else {
                -(acc as i32)
            }
        } else {
            acc as i32
        };
        Some((Numeral::Int(v), k))
    }
}

/// Parses a numeric literal at the head of a text, returning the numeral
/// and how many characters it consumed.
pub fn number(s: &str) -> (r: Option<(Numeral, usize)>)
    ensures
        match r {
            Some((n, end)) => spec_number(s@, 0) == Some((n, end as int)) && 0 < end <= s@.len(),
            None => spec_number(s@, 0) is None,
        },
{
    let chars = text_chars(s);
    number_at(&chars, 0)
}

} // verus!
