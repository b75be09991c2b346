//! Hard-clipping distortion with a smoothed threshold.
//!
//! Each sample is clamped to a threshold and renormalised to full
//! scale, so material above the threshold is flattened and the rest
//! is boosted. The active threshold glides toward the configured one
//! by a small fraction of the remaining distance per sample, so
//! threshold changes do not click.

use vstd::prelude::*;

verus! {

use crate::FIXED_ONE;
use crate::targetval::{Rate, TargetVal};

/// Smallest threshold the distortion accepts (about one percent of
/// full scale), keeping the renormalising division well-defined.
pub const MIN_THRESHOLD: i64 = 655;

/// Per-sample smoothing fraction of the active threshold, in units
/// of `1 / FIXED_ONE`.
pub const THRESHOLD_SMOOTHING: i64 = 7;

/// A sample clamped to `[-threshold, threshold]` and rescaled so the
/// threshold maps to full scale, truncating toward zero.
pub open spec fn distorted(sample: int, threshold: int) -> int {
    if sample >= 0 {
        (if sample < threshold {
            sample
        } else {
            threshold
        }) * (FIXED_ONE as int) / threshold
    } else {
        -((if -sample < threshold {
            -sample
        } else {
            threshold
        }) * (FIXED_ONE as int) / threshold)
    }
}

/// A distortion effect: the configured threshold is the smoothed
/// value's target, the active threshold its current value.
pub struct Distortion {
    pub active_threshold: TargetVal,
}

/// The effect as it stands after processing one sample.
pub open spec fn distortion_step(d: Distortion) -> Distortion {
    Distortion { active_threshold: d.active_threshold.stepped() }
}

/// The effect after processing `n` samples.
pub open spec fn distortion_stepped_n(d: Distortion, n: nat) -> Distortion
    decreases n,
{
    if n == 0 {
        d
    } else {
        distortion_step(distortion_stepped_n(d, (n - 1) as nat))
    }
}

/// The first `n` output samples the effect produces from `input`:
/// each advances the active threshold once, then distorts by it.
pub open spec fn distortion_samples(d: Distortion, input: Seq<i64>, n: nat) -> Seq<i64>
    decreases n,
{
    if n == 0 {
        Seq::empty()
    } else {
        distortion_samples(d, input, (n - 1) as nat).push(
            distorted(
                input[n - 1] as int,
                distortion_stepped_n(d, (n - 1) as nat).active_threshold.advanced(),
            ) as i64,
        )
    }
}

/// Clamps a sample to the threshold and renormalises it to full
/// scale.
pub fn distort_sample(sample: i64, threshold: i64) -> (r: i64)
    requires
        MIN_THRESHOLD <= threshold <= FIXED_ONE,
        -0x100_0000_0000 <= sample <= 0x100_0000_0000,
    ensures
        r == distorted(sample as int, threshold as int),
        -FIXED_ONE <= r <= FIXED_ONE,
{
    if sample >= 0 {
        let clamped: i64 = if sample < threshold {
            sample
        } else {
            threshold
        };
        proof {
            assert(0 <= clamped * FIXED_ONE <= threshold * FIXED_ONE) by (nonlinear_arith)
                requires 0 <= clamped <= threshold;
            assert(threshold * FIXED_ONE <= FIXED_ONE * FIXED_ONE) by (nonlinear_arith)
                requires threshold <= FIXED_ONE;
            assert(clamped * FIXED_ONE / (threshold as int) <= FIXED_ONE) by (nonlinear_arith)
                requires
                    0 < threshold,
                    0 <= clamped * FIXED_ONE <= threshold * FIXED_ONE,
            ;
        }
        clamped * FIXED_ONE / threshold
    } else {
        let magnitude: i64 = -sample;
        let clamped: i64 = if magnitude < threshold {
            magnitude
        } else {
            threshold
        };
        proof {
            assert(0 <= clamped * FIXED_ONE <= threshold * FIXED_ONE) by (nonlinear_arith)
                requires 0 <= clamped <= threshold;
            assert(threshold * FIXED_ONE <= FIXED_ONE * FIXED_ONE) by (nonlinear_arith)
                requires threshold <= FIXED_ONE;
            assert(clamped * FIXED_ONE / (threshold as int) <= FIXED_ONE) by (nonlinear_arith)
                requires
                    0 < threshold,
                    0 <= clamped * FIXED_ONE <= threshold * FIXED_ONE,
            ;
        }
        -(clamped * FIXED_ONE / threshold)
    }
}

impl Distortion {
    pub open spec fn wf(self) -> bool {
        &&& self.active_threshold.wf()
        &&& MIN_THRESHOLD <= self.active_threshold.value() <= FIXED_ONE
        &&& MIN_THRESHOLD <= self.active_threshold.target() <= FIXED_ONE
    }

    /// A fresh effect with the threshold at full scale, so nothing
    /// distorts until it is lowered.
    pub fn new() -> (r: Distortion)
        ensures
            r.wf(),
            r.active_threshold.value() == FIXED_ONE,
            r.active_threshold.target() == FIXED_ONE,
    {
        Distortion {
            active_threshold: TargetVal::new(
                Rate::Relative(THRESHOLD_SMOOTHING),
                Rate::Relative(THRESHOLD_SMOOTHING),
                FIXED_ONE,
            ),
        }
    }

    /// Sets the threshold the active threshold glides toward,
    /// raising it to the minimum when asked for less.
    pub fn set_threshold(&mut self, threshold: i64)
        requires
            old(self).wf(),
            threshold <= FIXED_ONE,
        ensures
            final(self).wf(),
            final(self).active_threshold == (TargetVal {
                target: if threshold < MIN_THRESHOLD {
                    MIN_THRESHOLD
                } else {
                    threshold
                },
                ..old(self).active_threshold
            }),
    {
        let clamped: i64 = if threshold < MIN_THRESHOLD {
            MIN_THRESHOLD
        } else {
            threshold
        };
        self.active_threshold.set_target(clamped);
    }

    /// Distorts a block: each output sample advances the active
    /// threshold once, then clamps and renormalises the matching
    /// input sample.
    pub fn process(&mut self, input: &Vec<i64>) -> (out: Vec<i64>)
        requires
            old(self).wf(),
            forall|i: int|
                0 <= i < input@.len() ==> -0x100_0000_0000 <= #[trigger] input@[i]
                    <= 0x100_0000_0000,
        ensures
            final(self).wf(),
            out@.len() == input@.len(),
            out@ == distortion_samples(*old(self), input@, input@.len() as nat),
            *final(self) == distortion_stepped_n(*old(self), input@.len() as nat),
    {
        let start = Ghost(*self);
        let mut out: Vec<i64> = Vec::new();
        let mut i: usize = 0;
        while i < input.len()
            invariant
                0 <= i <= input@.len(),
                start@.wf(),
                forall|j: int|
                    0 <= j < input@.len() ==> -0x100_0000_0000 <= #[trigger] input@[j]
                        <= 0x100_0000_0000,
                *self == distortion_stepped_n(start@, i as nat),
                self.wf(),
                out@.len() == i,
                out@ == distortion_samples(start@, input@, i as nat),
            decreases input@.len() - i,
        {
            let previous = Ghost(*self);
            self.active_threshold.advance();
            let sample: i64 = distort_sample(input[i], *self.active_threshold.get_value());
            out.push(sample);
            proof {
                assert(*self == distortion_step(previous@));
            }
            i = i + 1;
        }
        out
    }
}

} // verus!
