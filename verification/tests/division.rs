use vstutils::division::{
    beats_frequency_millihertz, get_division, get_name, get_tempo_multiplier, Division,
    TEMPO_MULTIPLIER_UNIT,
};
use vstutils::FIXED_ONE;

#[test]
fn parameter_range_splits_into_divisions() {
    assert_eq!(get_division(0), Division::WholeDot);
    assert_eq!(get_division(-5), Division::WholeDot);
    assert_eq!(get_division(FIXED_ONE / 15 - 1), Division::WholeDot);
    assert_eq!(get_division(FIXED_ONE / 15 + 1), Division::Whole);
    assert_eq!(get_division(FIXED_ONE / 2), Division::Quarter);
    assert_eq!(get_division(FIXED_ONE - 1), Division::SixteenthTriplet);
    assert_eq!(get_division(FIXED_ONE), Division::SixteenthTriplet);
    assert_eq!(get_division(FIXED_ONE + 9), Division::SixteenthTriplet);
}

#[test]
fn names_follow_dot_and_triplet_convention() {
    assert_eq!(get_name(Division::WholeDot), "1.");
    assert_eq!(get_name(Division::Whole), "1");
    assert_eq!(get_name(Division::WholeTriplet), "1T");
    assert_eq!(get_name(Division::Quarter), "1/4");
    assert_eq!(get_name(Division::QuarterDot), "1/4.");
    assert_eq!(get_name(Division::SixteenthTriplet), "1/16T");
}

#[test]
fn tempo_multipliers_are_exact_rationals() {
    // A quarter note beats once per metronome beat: 1/60 of a beat
    // per second for each BPM.
    assert_eq!(get_tempo_multiplier(Division::Quarter), TEMPO_MULTIPLIER_UNIT / 60);
    // Dotted lengths beat at two thirds of the plain rate; triplets
    // at one and a half times.
    assert_eq!(3 * get_tempo_multiplier(Division::QuarterDot), 2 * 24);
    assert_eq!(2 * get_tempo_multiplier(Division::QuarterTriplet), 3 * 24);
    // Halving the note length doubles the rate.
    assert_eq!(
        get_tempo_multiplier(Division::Eighth),
        2 * get_tempo_multiplier(Division::Quarter)
    );
    assert_eq!(get_tempo_multiplier(Division::WholeDot), 4);
    assert_eq!(get_tempo_multiplier(Division::SixteenthTriplet), 144);
}

#[test]
fn quarter_note_at_120_bpm_beats_twice_a_second() {
    let beats = beats_frequency_millihertz(120_000, Division::Quarter);
    assert_eq!(beats, 2_000);
}

#[test]
fn beat_frequencies_scale_with_tempo_and_division() {
    assert_eq!(beats_frequency_millihertz(60_000, Division::Quarter), 1_000);
    assert_eq!(beats_frequency_millihertz(60_000, Division::Eighth), 2_000);
    assert_eq!(beats_frequency_millihertz(60_000, Division::WholeDot), 166);
    assert_eq!(beats_frequency_millihertz(0, Division::Quarter), 0);
}
