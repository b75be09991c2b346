use vstutils::distortion::{Distortion, MIN_THRESHOLD};
use vstutils::FIXED_ONE;

#[test]
fn full_threshold_passes_and_clips_at_full_scale() {
    let mut effect = Distortion::new();
    let input = vec![1_000, -400_000, 70_000, 0];
    let output = effect.process(&input);
    // At a full-scale threshold, material below it passes unchanged
    // and material above flattens to full scale.
    assert_eq!(output, vec![1_000, -FIXED_ONE, FIXED_ONE, 0]);
}

#[test]
fn threshold_requests_below_the_minimum_are_raised() {
    let mut effect = Distortion::new();
    effect.set_threshold(100);
    assert_eq!(*effect.active_threshold.get_target(), MIN_THRESHOLD);
    effect.set_threshold(-10);
    assert_eq!(*effect.active_threshold.get_target(), MIN_THRESHOLD);
    effect.set_threshold(30_000);
    assert_eq!(*effect.active_threshold.get_target(), 30_000);
}

#[test]
fn active_threshold_glides_toward_the_setting() {
    let mut effect = Distortion::new();
    effect.set_threshold(FIXED_ONE / 2);
    // One sample moves the active threshold by 7/65536 of the
    // remaining distance: 32768 * 7 / 65536 = 3.
    let output = effect.process(&vec![FIXED_ONE]);
    assert_eq!(*effect.active_threshold.get_value(), FIXED_ONE - 3);
    // A full-scale input clamps to the active threshold and
    // renormalises exactly to full scale.
    assert_eq!(output, vec![FIXED_ONE]);
}

#[test]
fn samples_at_the_threshold_renormalise_exactly() {
    let mut effect = Distortion::new();
    let output = effect.process(&vec![FIXED_ONE, -FIXED_ONE]);
    assert_eq!(output, vec![FIXED_ONE, -FIXED_ONE]);
}
