//! The signal generator: a time counter and an expression tree. Each call
//! evaluates at the current time, advances the counter by one (wrapping at
//! the counter's width), and yields the sample — a failed evaluation
//! (division by zero) yields the domain's zero instead, so a running stream
//! never aborts.

use vstd::prelude::*;
use vstd::wrapping::u32_specs;
use crate::eval::{eval, spec_eval};
use crate::expr::Expr;

verus! {

/// The sample an expression yields at one time step: its value, or zero
/// where evaluation fails.
pub open spec fn spec_sample(e: Expr, t: u32) -> i32 {
    match spec_eval(t, e) {
        Ok(v) => v,
        Err(_) => 0,
    }
}

/// A stateful generator of the logically infinite sample sequence of one
/// expression: sample `n` of the stream is the expression's value at time
/// `n`, with zero standing in for a failed evaluation. The counter is the
/// only state that moves; restart only by constructing a new generator.
pub struct ExprSignal {
    pub time: u32,
    pub expression: Expr,
}

impl ExprSignal {
    /// Emits the sample at the current time and advances the counter by
    /// exactly one, wrapping at its width. Never fails: a division by zero
    /// in the expression yields the zero sample.
    pub fn advance(&mut self) -> (s: i32)
        ensures
            s == spec_sample(old(self).expression, old(self).time),
            final(self).time == u32_specs::wrapping_add(old(self).time, 1u32),
            final(self).expression == old(self).expression,
    {
        let s = match eval(self.time, &self.expression) {
            Ok(x) => x,
            Err(_) => 0,
        };
        self.time = self.time.wrapping_add(1);
        s
    }

    /// One step of the stream in the 8-bit signed output domain: the sample
    /// reduced to its low 8 bits.
    pub fn advance_i8(&mut self) -> (s: i8)
        ensures
            s == spec_sample(old(self).expression, old(self).time) as i8,
            final(self).time == u32_specs::wrapping_add(old(self).time, 1u32),
            final(self).expression == old(self).expression,
    {
        let x = self.advance();
        #[verifier::truncate] (x as i8)
    }

    /// One step of the stream in the 16-bit signed output domain: the sample
    /// reduced to its low 16 bits.
    pub fn advance_i16(&mut self) -> (s: i16)
        ensures
            s == spec_sample(old(self).expression, old(self).time) as i16,
            final(self).time == u32_specs::wrapping_add(old(self).time, 1u32),
            final(self).expression == old(self).expression,
    {
        let x = self.advance();
        #[verifier::truncate] (x as i16)
    }
}

impl From<Expr> for ExprSignal {
    /// A fresh generator over an expression: its counter starts at zero.
    fn from(expr: Expr) -> (r: ExprSignal) {
        ExprSignal { time: 0, expression: expr }
    }
}

impl vstd::std_specs::convert::FromSpecImpl<Expr> for ExprSignal {
    open spec fn obeys_from_spec() -> bool {
        true
    }

    open spec fn from_spec(expr: Expr) -> ExprSignal {
        ExprSignal { time: 0, expression: expr }
    }
}

} // verus!
