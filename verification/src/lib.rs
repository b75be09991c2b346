//! Sample-accurate audio synthesis core: smoothed parameter ramps, a
//! polyphonic note tracker, wavetable oscillators and per-sample voice
//! render loops, all in Q16 fixed-point arithmetic.
//!
//! Real-valued quantities (levels, pans, envelopes, waveform samples)
//! are carried as `i64` values scaled by [`FIXED_ONE`]; frequencies are
//! integer millihertz and tempos integer milli-BPM, so every step of the
//! engine is exact integer arithmetic.

use vstd::prelude::*;

pub mod distortion;
pub mod division;
pub mod generator;
pub mod maths;
pub mod notetracker;
pub mod targetval;
pub mod voice;

verus! {

/// One whole unit (1.0) in Q16 fixed-point representation.
pub const FIXED_ONE: i64 = 65536;

/// Multiplies a fixed-point magnitude `a` by a fraction `b` in
/// `[0, FIXED_ONE]`, rounding the magnitude of the result toward zero.
pub open spec fn fixed_scale(a: int, b: int) -> int {
    if a >= 0 {
        a * b / (FIXED_ONE as int)
    } else {
        -((-a) * b / (FIXED_ONE as int))
    }
}

/// Fixed-point scaling: `a * b / FIXED_ONE` with truncation toward zero.
pub fn fixed_mul(a: i64, b: i64) -> (r: i64)
    requires
        -0x100_0000_0000 <= a <= 0x100_0000_0000,
        0 <= b <= FIXED_ONE,
    ensures
        r == fixed_scale(a as int, b as int),
        a >= 0 ==> 0 <= r <= a,
        a < 0 ==> a <= r <= 0,
{
    if a >= 0 {
        proof {
            assert(0 <= a * b <= a * FIXED_ONE) by (nonlinear_arith)
                requires 0 <= a, 0 <= b <= FIXED_ONE;
            assert(a * FIXED_ONE <= 0x100_0000_0000 * FIXED_ONE) by (nonlinear_arith)
                requires 0 <= a <= 0x100_0000_0000;
            assert(a * b / (FIXED_ONE as int) <= a) by (nonlinear_arith)
                requires 0 <= a, 0 <= a * b <= a * FIXED_ONE;
        }
        let p: i64 = a * b;
        p / FIXED_ONE
    } else {
        let n: i64 = -a;
        proof {
            assert(0 <= n * b <= n * FIXED_ONE) by (nonlinear_arith)
                requires 0 <= n, 0 <= b <= FIXED_ONE;
            assert(n * FIXED_ONE <= 0x100_0000_0000 * FIXED_ONE) by (nonlinear_arith)
                requires 0 <= n <= 0x100_0000_0000;
            assert(n * b / (FIXED_ONE as int) <= n) by (nonlinear_arith)
                requires 0 <= n, 0 <= n * b <= n * FIXED_ONE;
        }
        let p: i64 = n * b;
        -(p / FIXED_ONE)
    }
}

} // verus!
