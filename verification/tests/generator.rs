use vstutils::generator::{Oscillator, WaveTable};
use vstutils::FIXED_ONE;

#[test]
fn table_positions_on_entries_return_them_exactly() {
    let table = WaveTable::new(vec![0, 100, 200, 300]);
    assert_eq!(table.get_value(0), 0);
    assert_eq!(table.get_value(FIXED_ONE), 100);
    assert_eq!(table.get_value(2 * FIXED_ONE), 200);
    assert_eq!(table.get_value(3 * FIXED_ONE), 300);
}

#[test]
fn table_midpoints_return_the_mean() {
    let table = WaveTable::new(vec![0, 100, 200, 300]);
    let half = FIXED_ONE / 2;
    assert_eq!(table.get_value(half), 50);
    assert_eq!(table.get_value(FIXED_ONE + half), 150);
    // The last midpoint wraps around to the first entry.
    assert_eq!(table.get_value(3 * FIXED_ONE + half), 150);
}

#[test]
fn interpolation_rounds_toward_the_first_entry() {
    // An odd span has no exact integer mean; the fraction truncates.
    let table = WaveTable::new(vec![0, 5]);
    assert_eq!(table.get_value(FIXED_ONE / 2), 2);
    let falling = WaveTable::new(vec![5, 0]);
    assert_eq!(falling.get_value(FIXED_ONE / 2), 3);
}

#[test]
fn oscillator_repeats_with_the_expected_period() {
    // Four entries, 25 Hz at 100 samples per second: the position
    // advances one whole entry per sample, so the output repeats
    // every four samples.
    let table = WaveTable::new(vec![0, FIXED_ONE, 0, -FIXED_ONE]);
    let mut osc = Oscillator::new(table, 100);
    osc.set_frequency(25_000);

    let mut samples = Vec::new();
    for _ in 0..8 {
        samples.push(osc.next_sample());
    }
    assert_eq!(samples, vec![0, FIXED_ONE, 0, -FIXED_ONE, 0, FIXED_ONE, 0, -FIXED_ONE]);
}

#[test]
fn frequency_changes_take_effect_on_the_next_sample() {
    let table = WaveTable::new(vec![0, FIXED_ONE, 0, -FIXED_ONE]);
    let mut osc = Oscillator::new(table, 100);
    osc.set_frequency(25_000);
    assert_eq!(osc.next_sample(), 0);
    // Halving the frequency halves the stride.
    osc.set_frequency(12_500);
    assert_eq!(osc.next_sample(), FIXED_ONE);
    // Now half-way between entries one and two.
    assert_eq!(osc.next_sample(), FIXED_ONE / 2);
    assert_eq!(osc.get_frequency(), 12_500);
    assert_eq!(osc.get_sample_rate(), 100);
}
