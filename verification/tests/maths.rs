use vstutils::maths::{get_beats_frequencies, isqrt, midi_pitch_to_freq};

#[test]
fn test_midi_pitch_to_freq() {
    assert_eq!(midi_pitch_to_freq(57), 220_000);
    assert_eq!(midi_pitch_to_freq(69), 440_000);
    assert_eq!(midi_pitch_to_freq(81), 880_000);
}

#[test]
fn test_get_beats_frequencies() {
    let f_target: i64 = 440_000;
    let f_beats: i64 = 1_000;

    let (f_lower, f_upper) = get_beats_frequencies(f_target, f_beats);

    assert_eq!(f_upper, f_lower + f_beats);
    // The product of the pair stays within the proven error band of
    // the squared target.
    let product = 4 * f_lower * f_upper;
    let square = 4 * f_target * f_target;
    assert!(product <= square);
    assert!(square < product + 4 * (f_beats + 2 * f_target));
}

#[test]
fn pitch_octaves_double_exactly() {
    assert_eq!(midi_pitch_to_freq(21), 2 * midi_pitch_to_freq(9));
    assert_eq!(midi_pitch_to_freq(93), 2 * midi_pitch_to_freq(81));
    assert_eq!(midi_pitch_to_freq(72), 2 * midi_pitch_to_freq(60));
}

#[test]
fn pitch_extremes_stay_in_range() {
    assert_eq!(midi_pitch_to_freq(0), 8_176);
    assert_eq!(midi_pitch_to_freq(127), 12_250 << 10);
}

#[test]
fn isqrt_exact_and_floor_values() {
    assert_eq!(isqrt(0), 0);
    assert_eq!(isqrt(1), 1);
    assert_eq!(isqrt(3), 1);
    assert_eq!(isqrt(4), 2);
    assert_eq!(isqrt(1_000_000), 1_000);
    assert_eq!(isqrt(999_999), 999);
    assert_eq!(isqrt(i64::MAX), 3_037_000_499);
}

#[test]
fn zero_beat_rate_gives_unison() {
    let (f_lower, f_upper) = get_beats_frequencies(440_000, 0);
    assert_eq!(f_upper, f_lower);
    assert_eq!(f_lower, 440_000);
}
