//! Musical note-length divisions and their tempo arithmetic.
//!
//! A [`Division`] selects one of fifteen note lengths (whole to
//! sixteenth, each plain, dotted or triplet). Given a tempo it yields
//! a beat rate: `get_tempo_multiplier` returns an exact rational
//! multiplier scaled by [`TEMPO_MULTIPLIER_UNIT`], so that a tempo in
//! milli-BPM times the multiplier, divided by the unit, is the beat
//! frequency in millihertz.

use vstd::prelude::*;

verus! {

use crate::FIXED_ONE;

/// A musical note-length division: plain, dotted (`Dot`) or triplet.
#[derive(Clone, Copy, Debug, PartialEq, Eq, Structural)]
pub enum Division {
    WholeDot,
    Whole,
    WholeTriplet,
    HalfDot,
    Half,
    HalfTriplet,
    QuarterDot,
    Quarter,
    QuarterTriplet,
    EighthDot,
    Eighth,
    EighthTriplet,
    SixteenthDot,
    Sixteenth,
    SixteenthTriplet,
}

/// How many divisions a parameter selects between.
pub const NUM_DIVISIONS: i64 = 15;

/// Denominator of the exact rational returned by
/// [`get_tempo_multiplier`].
pub const TEMPO_MULTIPLIER_UNIT: i64 = 1440;

/// `param` clamped to `[0, FIXED_ONE]` and quantized to a division
/// step in `0..=NUM_DIVISIONS`.
pub open spec fn division_step(param: int) -> int {
    let clamped = if param < 0 {
        0
    } else if param > FIXED_ONE {
        FIXED_ONE as int
    } else {
        param
    };
    clamped * NUM_DIVISIONS / (FIXED_ONE as int)
}

/// The division selected by a quantized step; every step past the
/// next-to-last division selects the last one.
pub open spec fn division_of_step(step: int) -> Division {
    if step <= 0 {
        Division::WholeDot
    } else if step == 1 {
        Division::Whole
    } else if step == 2 {
        Division::WholeTriplet
    } else if step == 3 {
        Division::HalfDot
    } else if step == 4 {
        Division::Half
    } else if step == 5 {
        Division::HalfTriplet
    } else if step == 6 {
        Division::QuarterDot
    } else if step == 7 {
        Division::Quarter
    } else if step == 8 {
        Division::QuarterTriplet
    } else if step == 9 {
        Division::EighthDot
    } else if step == 10 {
        Division::Eighth
    } else if step == 11 {
        Division::EighthTriplet
    } else if step == 12 {
        Division::SixteenthDot
    } else if step == 13 {
        Division::Sixteenth
    } else {
        Division::SixteenthTriplet
    }
}

/// Maps a Q16 parameter in `[0, 1]` (values outside are clamped) to
/// the division it selects, splitting the range evenly.
pub fn get_division(param: i64) -> (r: Division)
    ensures
        r == division_of_step(division_step(param as int)),
{
    let clamped: i64 = if param < 0 {
        0
    } else if param > FIXED_ONE {
        FIXED_ONE
    } else {
        param
    };
    let step: i64 = clamped * NUM_DIVISIONS / FIXED_ONE;
    match step {
        0 => Division::WholeDot,
        1 => Division::Whole,
        2 => Division::WholeTriplet,
        3 => Division::HalfDot,
        4 => Division::Half,
        5 => Division::HalfTriplet,
        6 => Division::QuarterDot,
        7 => Division::Quarter,
        8 => Division::QuarterTriplet,
        9 => Division::EighthDot,
        10 => Division::Eighth,
        11 => Division::EighthTriplet,
        12 => Division::SixteenthDot,
        13 => Division::Sixteenth,
        _ => Division::SixteenthTriplet,
    }
}

/// The display name of a division.
pub open spec fn division_name(division: Division) -> Seq<char> {
    match division {
        Division::WholeDot => "1."@,
        Division::Whole => "1"@,
        Division::WholeTriplet => "1T"@,
        Division::HalfDot => "1/2."@,
        Division::Half => "1/2"@,
        Division::HalfTriplet => "1/2T"@,
        Division::QuarterDot => "1/4."@,
        Division::Quarter => "1/4"@,
        Division::QuarterTriplet => "1/4T"@,
        Division::EighthDot => "1/8."@,
        Division::Eighth => "1/8"@,
        Division::EighthTriplet => "1/8T"@,
        Division::SixteenthDot => "1/16."@,
        Division::Sixteenth => "1/16"@,
        Division::SixteenthTriplet => "1/16T"@,
    }
}

/// Short display name for a division: dotted lengths end in `.`,
/// triplets in `T`.
pub fn get_name(division: Division) -> (r: String)
    ensures
        r@ == division_name(division),
{
    match division {
        Division::WholeDot => "1.".to_string(),
        Division::Whole => "1".to_string(),
        Division::WholeTriplet => "1T".to_string(),
        Division::HalfDot => "1/2.".to_string(),
        Division::Half => "1/2".to_string(),
        Division::HalfTriplet => "1/2T".to_string(),
        Division::QuarterDot => "1/4.".to_string(),
        Division::Quarter => "1/4".to_string(),
        Division::QuarterTriplet => "1/4T".to_string(),
        Division::EighthDot => "1/8.".to_string(),
        Division::Eighth => "1/8".to_string(),
        Division::EighthTriplet => "1/8T".to_string(),
        Division::SixteenthDot => "1/16.".to_string(),
        Division::Sixteenth => "1/16".to_string(),
        Division::SixteenthTriplet => "1/16T".to_string(),
    }
}

/// The beats-per-second-per-BPM multiplier of a division, scaled by
/// `TEMPO_MULTIPLIER_UNIT`. A quarter note beats once per metronome
/// beat, so its multiplier is `1 / 60` of a beat per second per BPM,
/// which is `24 / 1440`; dotted and triplet lengths scale it by `2/3`
/// and `3/2`, and each halving of the note length doubles it.
pub open spec fn tempo_multiplier(division: Division) -> int {
    match division {
        Division::WholeDot => 4,
        Division::Whole => 6,
        Division::WholeTriplet => 9,
        Division::HalfDot => 8,
        Division::Half => 12,
        Division::HalfTriplet => 18,
        Division::QuarterDot => 16,
        Division::Quarter => 24,
        Division::QuarterTriplet => 36,
        Division::EighthDot => 32,
        Division::Eighth => 48,
        Division::EighthTriplet => 72,
        Division::SixteenthDot => 64,
        Division::Sixteenth => 96,
        Division::SixteenthTriplet => 144,
    }
}

/// Exact rational tempo multiplier of a division, as a numerator over
/// `TEMPO_MULTIPLIER_UNIT`.
pub fn get_tempo_multiplier(division: Division) -> (r: i64)
    ensures
        r == tempo_multiplier(division),
        4 <= r <= 144,
{
    match division {
        Division::WholeDot => 4,
        Division::Whole => 6,
        Division::WholeTriplet => 9,
        Division::HalfDot => 8,
        Division::Half => 12,
        Division::HalfTriplet => 18,
        Division::QuarterDot => 16,
        Division::Quarter => 24,
        Division::QuarterTriplet => 36,
        Division::EighthDot => 32,
        Division::Eighth => 48,
        Division::EighthTriplet => 72,
        Division::SixteenthDot => 64,
        Division::Sixteenth => 96,
        Division::SixteenthTriplet => 144,
    }
}

/// The beat frequency in millihertz that a division produces at a
/// given tempo in milli-BPM.
pub fn beats_frequency_millihertz(tempo_millibpm: i64, division: Division) -> (r: i64)
    requires
        0 <= tempo_millibpm <= 0x4000_0000_0000,
    ensures
        r == tempo_millibpm * tempo_multiplier(division) / (TEMPO_MULTIPLIER_UNIT as int),
        0 <= r <= tempo_millibpm / 10,
{
    let multiplier: i64 = get_tempo_multiplier(division);
    proof {
        assert(0 <= tempo_millibpm * multiplier <= tempo_millibpm * 144) by (nonlinear_arith)
            requires 0 <= tempo_millibpm, 4 <= multiplier <= 144;
        assert(tempo_millibpm * 144 <= 0x4000_0000_0000 * 144) by (nonlinear_arith)
            requires 0 <= tempo_millibpm <= 0x4000_0000_0000;
        assert(tempo_millibpm * multiplier / 1440 <= tempo_millibpm * 144 / 1440)
            by (nonlinear_arith)
            requires 0 <= tempo_millibpm * multiplier <= tempo_millibpm * 144;
        assert(tempo_millibpm * 144 / 1440 == tempo_millibpm / 10) by (nonlinear_arith);
    }
    tempo_millibpm * multiplier / TEMPO_MULTIPLIER_UNIT
}

} // verus!
