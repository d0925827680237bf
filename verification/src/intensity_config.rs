//! Intensity curves: a flat start, a linear ramp, a flat end.

use crate::rounding::{
    div_round, div_round_exec, lemma_div_round_bounds, lemma_div_round_monotonic,
};
use vstd::prelude::*;

verus! {

/// Why an [`IntensityConfig`] could not be built.
#[derive(Debug)]
pub enum IntensityConfigError {
    NewError(String),
}

/// A curve from a step number to an integer intensity.
///
/// The curve holds `initial_value` up to `n_steps_not_incrementing`, then
/// climbs linearly, and holds `final_value` from `n_steps` on.
#[derive(Debug, Clone, Copy)]
pub struct IntensityConfig {
    initial_value: i32,
    final_value: i32,
    n_steps: u32,
    n_steps_not_incrementing: u32,
}

/// The value of the curve with the given bounds at step `t`.
pub open spec fn curve_value(initial: int, last: int, n_steps: int, n_flat: int, t: int) -> int {
    if t < n_flat {
        initial
    } else if t >= n_steps {
        last
    } else {
        initial + div_round((t - n_flat) * (last - initial), n_steps - n_flat)
    }
}

impl IntensityConfig {
    /// The bounds are ordered and the flat start is no longer than the whole curve.
    #[verifier::type_invariant]
    pub closed spec fn wf(self) -> bool {
        &&& self.initial_value <= self.final_value
        &&& self.n_steps >= self.n_steps_not_incrementing
    }

    pub closed spec fn spec_initial_value(&self) -> i32 {
        self.initial_value
    }

    pub closed spec fn spec_final_value(&self) -> i32 {
        self.final_value
    }

    pub closed spec fn spec_n_steps(&self) -> u32 {
        self.n_steps
    }

    pub closed spec fn spec_n_steps_not_incrementing(&self) -> u32 {
        self.n_steps_not_incrementing
    }

    /// The value that the curve starts with.
    #[verifier::when_used_as_spec(spec_initial_value)]
    pub fn initial_value(&self) -> (r: i32)
        ensures
            r == self.initial_value(),
    {
        self.initial_value
    }

    /// The value that the curve ends with.
    #[verifier::when_used_as_spec(spec_final_value)]
    pub fn final_value(&self) -> (r: i32)
        ensures
            r == self.final_value(),
    {
        self.final_value
    }

    /// The step from which the curve holds its final value.
    #[verifier::when_used_as_spec(spec_n_steps)]
    pub fn n_steps(&self) -> (r: u32)
        ensures
            r == self.n_steps(),
    {
        self.n_steps
    }

    /// The step up to which the curve holds its initial value.
    #[verifier::when_used_as_spec(spec_n_steps_not_incrementing)]
    pub fn n_steps_not_incrementing(&self) -> (r: u32)
        ensures
            r == self.n_steps_not_incrementing(),
    {
        self.n_steps_not_incrementing
    }

    /// The intensity at step `t`.
    pub open spec fn eval_spec(self, t: int) -> int {
        curve_value(
            self.initial_value() as int,
            self.final_value() as int,
            self.n_steps() as int,
            self.n_steps_not_incrementing() as int,
            t,
        )
    }

    /// Builds a curve, refusing bounds that are out of order.
    pub fn new(
        initial_value: i32,
        final_value: i32,
        n_steps: u32,
        n_steps_not_incrementing: u32,
    ) -> (r: Result<IntensityConfig, IntensityConfigError>)
        ensures
            r.is_ok() <==> initial_value <= final_value && n_steps >= n_steps_not_incrementing,
            r matches Ok(c) ==> {
                &&& c.wf()
                &&& c.initial_value() == initial_value
                &&& c.final_value() == final_value
                &&& c.n_steps() == n_steps
                &&& c.n_steps_not_incrementing() == n_steps_not_incrementing
            },
            r matches Err(IntensityConfigError::NewError(m)) ==> m@ == (if initial_value
                > final_value {
                "Initial value greater than final value"@
            } else {
                "Total steps smaller than steps not incrementing"@
            }),
    {
        if initial_value > final_value {
            return Err(
                IntensityConfigError::NewError("Initial value greater than final value".to_owned()),
            );
        }
        if n_steps < n_steps_not_incrementing {
            return Err(
                IntensityConfigError::NewError(
                    "Total steps smaller than steps not incrementing".to_owned(),
                ),
            );
        }
        Ok(IntensityConfig { initial_value, final_value, n_steps, n_steps_not_incrementing })
    }

    /// Evaluates the curve at step `t`.
    pub fn eval(&self, t: i32) -> (v: i32)
        ensures
            v == self.eval_spec(t as int),
            self.initial_value() <= v <= self.final_value(),
    {
        proof {
            use_type_invariant(self);
        }
        let t_wide: i64 = t as i64;
        let flat: i64 = self.n_steps_not_incrementing as i64;
        let total: i64 = self.n_steps as i64;
        if t_wide < flat {
            return self.initial_value;
        } else if t_wide >= total {
            return self.final_value;
        }
        let x_range: i128 = (total - flat) as i128;
        let y_range: i128 = (self.final_value as i64 - self.initial_value as i64) as i128;
        let offset: i128 = (t_wide - flat) as i128;
        assert(0 <= offset * y_range <= y_range * x_range) by (nonlinear_arith)
            requires
                0 <= offset < x_range,
                0 <= y_range,
        ;
        assert(offset * y_range <= 0x7fff_ffff * 0xffff_ffff) by (nonlinear_arith)
            requires
                0 <= offset <= 0x7fff_ffff,
                0 <= y_range <= 0xffff_ffff,
        ;
        let num: i128 = offset * y_range;
        proof {
            lemma_div_round_bounds(num as int, x_range as int, y_range as int);
        }
        let rise: i128 = div_round_exec(num, x_range as u64);
        (self.initial_value as i128 + rise) as i32
    }
}

/// The curve starts at its initial value: every step before the ramp gives it.
pub proof fn lemma_eval_before_ramp(c: IntensityConfig, t: int)
    requires
        c.wf(),
        t < c.n_steps_not_incrementing(),
    ensures
        c.eval_spec(t) == c.initial_value(),
{
}

/// The curve ends at its final value: every step from `n_steps` on gives it.
pub proof fn lemma_eval_after_ramp(c: IntensityConfig, t: int)
    requires
        c.wf(),
        t >= c.n_steps(),
    ensures
        c.eval_spec(t) == c.final_value(),
{
}

/// The curve never decreases: a later step gives at least the value of an earlier one.
pub proof fn lemma_eval_monotonic(c: IntensityConfig, earlier: int, later: int)
    requires
        c.wf(),
        earlier <= later,
    ensures
        c.eval_spec(earlier) <= c.eval_spec(later),
{
    let flat = c.n_steps_not_incrementing();
    let total = c.n_steps();
    let rise = c.final_value() - c.initial_value();
    if flat <= earlier && earlier < total {
        assert(0 <= (earlier - flat) * rise <= rise * (total - flat)) by (nonlinear_arith)
            requires
                0 <= earlier - flat < total - flat,
                0 <= rise,
        ;
        lemma_div_round_bounds((earlier - flat) * rise, total - flat, rise);
    }
    if flat <= later && later < total {
        assert(0 <= (later - flat) * rise <= rise * (total - flat)) by (nonlinear_arith)
            requires
                0 <= later - flat < total - flat,
                0 <= rise,
        ;
        lemma_div_round_bounds((later - flat) * rise, total - flat, rise);
    }
    if flat <= earlier && later < total {
        assert((earlier - flat) * rise <= (later - flat) * rise) by (nonlinear_arith)
            requires
                earlier <= later,
                0 <= rise,
        ;
        lemma_div_round_monotonic((earlier - flat) * rise, (later - flat) * rise, total - flat);
    }
}

} // verus!
