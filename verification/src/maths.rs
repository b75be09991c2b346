//! Pitch and beat-frequency arithmetic in integer millihertz.
//!
//! MIDI pitches map to equal-temperament frequencies referenced to
//! A4 (pitch 69) at 440 Hz; a pitch's frequency is an exact power of
//! two times a per-semitone base value, so octaves double exactly.
//! Two-oscillator "beating" voices split a target frequency into a
//! lower/upper pair whose difference is exactly the desired beat rate
//! and whose product stays close to the square of the target.

use vstd::prelude::*;

verus! {

/// Two to the power `n`.
pub open spec fn pow_two(n: nat) -> int
    decreases n,
{
    if n == 0 {
        1
    } else {
        2 * pow_two((n - 1) as nat)
    }
}

pub proof fn lemma_pow_two_monotone(m: nat, n: nat)
    requires
        m <= n,
    ensures
        1 <= pow_two(m) <= pow_two(n),
    decreases n,
{
    if n > 0 {
        if m == n {
            lemma_pow_two_monotone(0, (n - 1) as nat);
        } else {
            lemma_pow_two_monotone(m, (n - 1) as nat);
        }
    }
}

/// The frequency, in millihertz, of the lowest octave of each
/// semitone class: MIDI pitches 0 through 11, rounded to the nearest
/// millihertz. Pitch 9 is the A whose octaves give A4 = 440 Hz
/// exactly.
pub open spec fn pitch_base_millihertz(semitone: int) -> int {
    if semitone == 0 {
        8176
    } else if semitone == 1 {
        8662
    } else if semitone == 2 {
        9177
    } else if semitone == 3 {
        9723
    } else if semitone == 4 {
        10301
    } else if semitone == 5 {
        10913
    } else if semitone == 6 {
        11562
    } else if semitone == 7 {
        12250
    } else if semitone == 8 {
        12978
    } else if semitone == 9 {
        13750
    } else if semitone == 10 {
        14568
    } else {
        15434
    }
}

/// The equal-temperament frequency of a MIDI pitch in millihertz:
/// the base frequency of its semitone class, doubled once per octave.
pub open spec fn pitch_frequency_millihertz(pitch: int) -> int {
    pitch_base_millihertz(pitch % 12) * pow_two((pitch / 12) as nat)
}

/// Raising a pitch by an octave exactly doubles its frequency.
pub proof fn lemma_octave_doubles(pitch: int)
    requires
        0 <= pitch <= 115,
    ensures
        pitch_frequency_millihertz(pitch + 12) == 2 * pitch_frequency_millihertz(pitch),
{
    assert((pitch + 12) % 12 == pitch % 12);
    assert((pitch + 12) / 12 == pitch / 12 + 1);
    let base = pitch_base_millihertz(pitch % 12);
    let octave = (pitch / 12) as nat;
    assert(pow_two((octave + 1) as nat) == 2 * pow_two(octave));
    assert(base * (2 * pow_two(octave)) == 2 * (base * pow_two(octave))) by (nonlinear_arith);
}

/// Largest value `midi_pitch_to_freq` returns (pitch 127).
pub const PITCH_FREQ_LIMIT: i64 = 15_804_416;

/// The frequency of a MIDI pitch in millihertz, in equal temperament
/// with A4 (pitch 69) at exactly 440 Hz.
pub fn midi_pitch_to_freq(pitch: u8) -> (r: i64)
    requires
        pitch <= 127,
    ensures
        r == pitch_frequency_millihertz(pitch as int),
        0 < r <= PITCH_FREQ_LIMIT,
{
    let base: i64 = match pitch % 12 {
        0 => 8176,
        1 => 8662,
        2 => 9177,
        3 => 9723,
        4 => 10301,
        5 => 10913,
        6 => 11562,
        7 => 12250,
        8 => 12978,
        9 => 13750,
        10 => 14568,
        _ => 15434,
    };
    let octave: u8 = pitch / 12;
    let mut freq: i64 = base;
    let mut k: u8 = 0;
    while k < octave
        invariant
            0 <= k <= octave <= 10,
            8176 <= base <= 15434,
            freq == base * pow_two(k as nat),
        decreases octave - k,
    {
        proof {
            lemma_pow_two_monotone(k as nat, 10);
            assert(pow_two(10) == 1024) by {
                reveal_with_fuel(pow_two, 11);
            }
            assert(base * pow_two(k as nat) <= base * 1024) by (nonlinear_arith)
                requires 0 < base, 1 <= pow_two(k as nat) <= 1024;
            assert(base * pow_two(k as nat) >= base) by (nonlinear_arith)
                requires 0 < base, 1 <= pow_two(k as nat);
            assert(2 * (base * pow_two(k as nat)) == base * (2 * pow_two(k as nat)))
                by (nonlinear_arith);
        }
        freq = freq * 2;
        k = k + 1;
    }
    proof {
        lemma_pow_two_monotone(octave as nat, 10);
        assert(pow_two(10) == 1024) by {
            reveal_with_fuel(pow_two, 11);
        }
        assert(base <= base * pow_two(octave as nat) <= base * 1024) by (nonlinear_arith)
            requires 0 < base, 1 <= pow_two(octave as nat) <= 1024;
        assert(base * 1024 <= 15434 * 1024) by (nonlinear_arith)
            requires base <= 15434;
    }
    freq
}

/// The integer square root: the largest integer whose square does not
/// exceed `n`.
pub fn isqrt(n: i64) -> (r: i64)
    requires
        0 <= n,
    ensures
        0 <= r,
        r * r <= n,
        (r + 1) * (r + 1) > n,
{
    let mut lo: i64 = 0;
    let mut hi: i64 = 3_037_000_500;
    proof {
        assert((3_037_000_500 as int) * 3_037_000_500 > i64::MAX) by (nonlinear_arith);
    }
    while lo + 1 < hi
        invariant
            0 <= lo < hi <= 3_037_000_500,
            lo * lo <= n <= i64::MAX,
            (hi as int) * (hi as int) > n,
        decreases hi - lo,
    {
        let mid: i64 = lo + (hi - lo) / 2;
        proof {
            assert(mid * mid <= 3_037_000_499 * 3_037_000_499) by (nonlinear_arith)
                requires 0 <= mid <= 3_037_000_499;
            assert((3_037_000_499 as int) * 3_037_000_499 < i64::MAX) by (nonlinear_arith);
        }
        let sq: i64 = mid * mid;
        if sq <= n {
            lo = mid;
        } else {
            hi = mid;
        }
    }
    lo
}

/// Splits a target frequency into the pair of frequencies whose
/// simultaneous sounding beats at the given rate: the upper exceeds
/// the lower by exactly `f_beats`, and their product approximates the
/// square of `f_target` (the error is below `f_beats + 2 * f_target`,
/// vanishingly small next to the square). All in millihertz.
pub fn get_beats_frequencies(f_target: i64, f_beats: i64) -> (r: (i64, i64))
    requires
        0 < f_target <= 1_000_000_000,
        0 <= f_beats <= 1_000_000_000,
    ensures
        r.1 - r.0 == f_beats,
        0 <= r.0 <= r.1,
        r.1 <= f_target + f_beats,
        4 * r.0 * r.1 <= 4 * f_target * f_target,
        4 * f_target * f_target < 4 * r.0 * r.1 + 4 * (f_beats + 2 * f_target),
{
    proof {
        assert(0 <= f_beats * f_beats <= 1_000_000_000_000_000_000) by (nonlinear_arith)
            requires 0 <= f_beats <= 1_000_000_000;
        assert(0 < 4 * (f_target * f_target) <= 4_000_000_000_000_000_000) by (nonlinear_arith)
            requires 0 < f_target <= 1_000_000_000;
    }
    let discriminant: i64 = f_beats * f_beats + 4 * (f_target * f_target);
    let s: i64 = isqrt(discriminant);
    proof {
        // The root is at least f_beats and at most f_beats + 2 * f_target.
        assert(s >= f_beats) by (nonlinear_arith)
            requires
                (s + 1) * (s + 1) > f_beats * f_beats + 4 * (f_target * f_target),
                0 < f_target,
                0 <= f_beats,
                0 <= s,
        ;
        assert(s <= f_beats + 2 * f_target) by (nonlinear_arith)
            requires
                s * s <= f_beats * f_beats + 4 * (f_target * f_target),
                0 < f_target,
                0 <= f_beats,
                0 <= s,
        ;
    }
    let lower: i64 = (s - f_beats) / 2;
    let upper: i64 = lower + f_beats;
    proof {
        let l = lower as int;
        let b = f_beats as int;
        let t = f_target as int;
        let d = discriminant as int;
        let e = (s - b) - 2 * l;
        assert(0 <= e <= 1);
        assert(s == 2 * l + e + b);
        assert(l <= t) by (nonlinear_arith)
            requires 2 * l + e + b == s, s <= b + 2 * t, 0 <= e;
        assert(s >= 1) by (nonlinear_arith)
            requires s * s <= d, (s + 1) * (s + 1) > d, d >= 4, 0 <= s;
        assert(4 * l * (l + b) == (s - e) * (s - e) - b * b) by (nonlinear_arith)
            requires s == 2 * l + e + b;
        assert((s - e) * (s - e) <= s * s) by (nonlinear_arith)
            requires 0 <= e <= 1, 1 <= s;
        assert(s * s - b * b <= 4 * (t * t)) by (nonlinear_arith)
            requires s * s <= b * b + 4 * (t * t);
        assert((s - e) * (s - e) >= s * s - 2 * s + 1) by (nonlinear_arith)
            requires 0 <= e <= 1, 1 <= s;
        assert(s * s >= d - 2 * s) by (nonlinear_arith)
            requires (s + 1) * (s + 1) > d;
        assert(4 * l * (l + b) >= 4 * (t * t) - 4 * s + 1) by (nonlinear_arith)
            requires
                4 * l * (l + b) == (s - e) * (s - e) - b * b,
                (s - e) * (s - e) >= s * s - 2 * s + 1,
                s * s >= d - 2 * s,
                d == b * b + 4 * (t * t),
        ;
        assert(4 * (t * t) < 4 * l * (l + b) + 4 * (b + 2 * t)) by (nonlinear_arith)
            requires 4 * l * (l + b) >= 4 * (t * t) - 4 * s + 1, s <= b + 2 * t;
        assert(4 * l * (l + b) == 4 * lower * upper);
        assert(4 * (t * t) == 4 * t * t) by (nonlinear_arith);
        assert(4 * lower * upper <= 4 * t * t) by (nonlinear_arith)
            requires 4 * lower * upper == 4 * l * (l + b), 4 * l * (l + b) <= 4 * (t * t);
    }
    (lower, upper)
}

} // verus!
