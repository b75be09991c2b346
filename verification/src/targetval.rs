//! A value that ramps toward a target, one step per audio sample.
//!
//! Values are Q16 fixed-point `i64` numbers (see [`crate::FIXED_ONE`]).
//! A [`Rate::Absolute`] rate adds a fixed amount per step, clamping at
//! the target; a [`Rate::Relative`] rate adds a fraction of the
//! remaining distance per step, so the value approaches the target
//! exponentially.

use vstd::prelude::*;

verus! {

use crate::FIXED_ONE;

/// Largest magnitude a smoothed value, target or absolute rate may have.
pub const VAL_LIMIT: i64 = 0x4000_0000;

/// How a [`TargetVal`] moves toward its target on each step: by a fixed
/// amount, or by a fraction (in units of `1 / FIXED_ONE`) of the
/// remaining distance.
pub enum Rate {
    Absolute(i64),
    Relative(i64),
}

impl Rate {
    /// A rate is usable when an absolute step is a bounded non-negative
    /// amount and a relative step is a fraction in `[0, 1]`.
    pub open spec fn wf(self) -> bool {
        match self {
            Rate::Absolute(step) => 0 <= step <= VAL_LIMIT,
            Rate::Relative(fraction) => 0 <= fraction <= FIXED_ONE,
        }
    }
}

/// The value reached from `value` after one upward step toward
/// `target` (which must lie above `value`).
pub open spec fn step_up(value: int, target: int, rate: Rate) -> int {
    match rate {
        Rate::Absolute(step) => if value + step >= target {
            target
        } else {
            value + step
        },
        Rate::Relative(fraction) => value + (target - value) * fraction / (FIXED_ONE as int),
    }
}

/// The value reached from `value` after one downward step toward
/// `target` (which must lie below `value`).
pub open spec fn step_down(value: int, target: int, rate: Rate) -> int {
    match rate {
        Rate::Absolute(step) => if value - step <= target {
            target
        } else {
            value - step
        },
        Rate::Relative(fraction) => value - (value - target) * fraction / (FIXED_ONE as int),
    }
}

/// A numeric value that moves toward a target by one rate step per
/// call to [`TargetVal::advance`].
pub struct TargetVal {
    pub inc_rate: Rate,
    pub dec_rate: Rate,
    pub target: i64,
    pub value: i64,
}

impl TargetVal {
    pub open spec fn inc_rate(self) -> Rate {
        self.inc_rate
    }

    pub open spec fn dec_rate(self) -> Rate {
        self.dec_rate
    }

    pub open spec fn target(self) -> int {
        self.target as int
    }

    pub open spec fn value(self) -> int {
        self.value as int
    }

    pub open spec fn wf(self) -> bool {
        &&& self.inc_rate.wf()
        &&& self.dec_rate.wf()
        &&& -VAL_LIMIT <= self.target <= VAL_LIMIT
        &&& -VAL_LIMIT <= self.value <= VAL_LIMIT
    }

    /// The value this smoothed value holds after one step.
    pub open spec fn advanced(self) -> int {
        if self.target() > self.value() {
            step_up(self.value(), self.target(), self.inc_rate)
        } else if self.target() < self.value() {
            step_down(self.value(), self.target(), self.dec_rate)
        } else {
            self.value()
        }
    }

    pub fn new(inc_rate: Rate, dec_rate: Rate, value: i64) -> (r: TargetVal)
        requires
            inc_rate.wf(),
            dec_rate.wf(),
            -VAL_LIMIT <= value <= VAL_LIMIT,
        ensures
            r.wf(),
            r.inc_rate() == inc_rate,
            r.dec_rate() == dec_rate,
            r.target() == value as int,
            r.value() == value as int,
    {
        TargetVal { inc_rate, dec_rate, target: value, value }
    }

    pub fn set_inc_rate(&mut self, inc_rate: Rate)
        requires
            inc_rate.wf(),
        ensures
            *final(self) == (TargetVal { inc_rate, ..*old(self) }),
    {
        self.inc_rate = inc_rate;
    }

    pub fn set_dec_rate(&mut self, dec_rate: Rate)
        requires
            dec_rate.wf(),
        ensures
            *final(self) == (TargetVal { dec_rate, ..*old(self) }),
    {
        self.dec_rate = dec_rate;
    }

    pub fn get_target(&self) -> (r: &i64)
        ensures
            *r as int == self.target(),
    {
        &self.target
    }

    pub fn set_target(&mut self, target: i64)
        requires
            -VAL_LIMIT <= target <= VAL_LIMIT,
        ensures
            *final(self) == (TargetVal { target, ..*old(self) }),
    {
        self.target = target;
    }

    pub fn get_value(&self) -> (r: &i64)
        ensures
            *r as int == self.value(),
    {
        &self.value
    }

    /// This smoothed value as it stands after one `advance` call.
    pub open spec fn stepped(self) -> TargetVal {
        TargetVal { value: self.advanced() as i64, ..self }
    }

    /// Takes one rate step toward the target; the new value never
    /// passes the target, and lies between the old value and the
    /// target.
    pub fn advance(&mut self)
        requires
            old(self).wf(),
        ensures
            *final(self) == old(self).stepped(),
            final(self).value() == old(self).advanced(),
            final(self).inc_rate() == old(self).inc_rate(),
            final(self).dec_rate() == old(self).dec_rate(),
            final(self).target() == old(self).target(),
            final(self).wf(),
            old(self).value() <= old(self).target() ==> old(self).value() <= final(self).value()
                <= old(self).target(),
            old(self).value() >= old(self).target() ==> old(self).target() <= final(self).value()
                <= old(self).value(),
    {
        if self.target > self.value {
            let distance: i64 = self.target - self.value;
            match self.inc_rate {
                Rate::Absolute(step) => {
                    if step >= distance {
                        self.value = self.target;
                    } else {
                        self.value = self.value + step;
                    }
                },
                Rate::Relative(fraction) => {
                    proof {
                        assert(0 <= distance * fraction <= distance * FIXED_ONE)
                            by (nonlinear_arith)
                            requires 0 < distance, 0 <= fraction <= FIXED_ONE;
                        assert(distance * FIXED_ONE <= 0x8000_0000 * FIXED_ONE)
                            by (nonlinear_arith)
                            requires 0 < distance <= 0x8000_0000;
                        assert(distance * fraction / (FIXED_ONE as int) <= distance)
                            by (nonlinear_arith)
                            requires 0 <= distance * fraction <= distance * FIXED_ONE;
                    }
                    let step: i64 = distance * fraction / FIXED_ONE;
                    self.value = self.value + step;
                },
            }
        } else if self.target < self.value {
            let distance: i64 = self.value - self.target;
            match self.dec_rate {
                Rate::Absolute(step) => {
                    if step >= distance {
                        self.value = self.target;
                    } else {
                        self.value = self.value - step;
                    }
                },
                Rate::Relative(fraction) => {
                    proof {
                        assert(0 <= distance * fraction <= distance * FIXED_ONE)
                            by (nonlinear_arith)
                            requires 0 < distance, 0 <= fraction <= FIXED_ONE;
                        assert(distance * FIXED_ONE <= 0x8000_0000 * FIXED_ONE)
                            by (nonlinear_arith)
                            requires 0 < distance <= 0x8000_0000;
                        assert(distance * fraction / (FIXED_ONE as int) <= distance)
                            by (nonlinear_arith)
                            requires 0 <= distance * fraction <= distance * FIXED_ONE;
                    }
                    let step: i64 = distance * fraction / FIXED_ONE;
                    self.value = self.value - step;
                },
            }
        }
    }
}

/// The value reached after `n` steps, every step taken with the same
/// target and rates.
pub open spec fn advanced_n(tv: TargetVal, n: nat) -> int
    decreases n,
{
    if n == 0 {
        tv.value()
    } else {
        advanced_n(TargetVal { value: tv.advanced() as i64, ..tv }, (n - 1) as nat)
    }
}

/// With an absolute rate `step`, a value below its target reaches the
/// target after exactly `n` steps, where `n` is the rounded-up
/// quotient of the distance by `step` (characterised here as the `n`
/// with `(n - 1) * step < distance <= n * step`), and on no earlier
/// step.
pub proof fn lemma_absolute_rate_reaches(tv: TargetVal, step: i64, n: nat)
    requires
        tv.wf(),
        tv.inc_rate() == Rate::Absolute(step),
        1 <= step,
        tv.value() < tv.target(),
        (n - 1) * step < tv.target() - tv.value() <= n * step,
    ensures
        advanced_n(tv, n) == tv.target(),
        forall|m: nat| m < n ==> advanced_n(tv, m) < tv.target(),
    decreases n,
{
    let distance = tv.target() - tv.value();
    assert(n >= 1) by (nonlinear_arith)
        requires (n - 1) * step < distance <= n * step, 0 < distance, 1 <= step;
    let next = TargetVal { value: tv.advanced() as i64, ..tv };
    if distance <= step {
        assert(tv.advanced() == tv.target());
        assert(advanced_n(tv, n) == advanced_n(next, (n - 1) as nat));
        assert(n == 1) by (nonlinear_arith)
            requires (n - 1) * step < distance, distance <= step, 1 <= step, 1 <= n;
        assert(advanced_n(next, 0) == tv.target());
        assert(forall|m: nat| m < 1 ==> advanced_n(tv, m) == tv.value());
    } else {
        assert(tv.advanced() == tv.value() + step);
        assert(next.value() == tv.value() + step);
        assert(n >= 2) by (nonlinear_arith)
            requires step < distance <= n * step, 1 <= step, 1 <= n;
        assert((n - 2) * step == (n - 1) * step - step) by (nonlinear_arith);
        assert((n - 1) * step == n * step - step) by (nonlinear_arith);
        lemma_absolute_rate_reaches(next, step, (n - 1) as nat);
        assert(advanced_n(tv, n) == advanced_n(next, (n - 1) as nat));
        assert forall|m: nat| m < n implies advanced_n(tv, m) < tv.target() by {
            if m == 0 {
                assert(advanced_n(tv, m) == tv.value());
            } else {
                assert(advanced_n(tv, m) == advanced_n(next, (m - 1) as nat));
            }
        }
    }
}

/// A relative step from below the target never reaches or passes the
/// target, and moves strictly closer whenever the remaining distance
/// times the fraction amounts to at least one representable step.
pub proof fn lemma_relative_step_approaches(value: int, target: int, fraction: i64)
    requires
        value < target,
        0 < fraction < FIXED_ONE,
    ensures
        value <= step_up(value, target, Rate::Relative(fraction)) < target,
        (target - value) * fraction >= FIXED_ONE ==> step_up(
            value,
            target,
            Rate::Relative(fraction),
        ) > value,
{
    let distance = target - value;
    let step = distance * fraction / (FIXED_ONE as int);
    assert(0 <= distance * fraction) by (nonlinear_arith)
        requires 0 < distance, 0 < fraction;
    assert(distance * fraction <= distance * (FIXED_ONE - 1)) by (nonlinear_arith)
        requires 0 < distance, 0 < fraction <= FIXED_ONE - 1;
    assert(distance * (FIXED_ONE - 1) == distance * FIXED_ONE - distance) by (nonlinear_arith);
    assert(step <= (distance * FIXED_ONE - distance) / (FIXED_ONE as int));
    assert((distance * FIXED_ONE - distance) / (FIXED_ONE as int) < distance) by (nonlinear_arith)
        requires 0 < distance;
    if distance * fraction >= FIXED_ONE {
        assert(step >= 1);
    }
}

} // verus!
