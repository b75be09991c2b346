use vstutils::division::Division;
use vstutils::generator::WaveTable;
use vstutils::voice::{BeatingVoice, MonoVoice};
use vstutils::FIXED_ONE;

fn flat_table() -> WaveTable {
    WaveTable::new(vec![FIXED_ONE; 4])
}

#[test]
fn mono_envelope_ramps_by_the_attack_rate() {
    let mut voice = MonoVoice::new(flat_table(), 44_100);
    voice.note_on(60, 127);

    // Full velocity over a tenth of a second at 44.1 kHz climbs by
    // ceil(65536 / 4410) = 15 per sample; the level is already full
    // and the flat table always yields a full-scale sample.
    let out = voice.process(3);
    assert_eq!(out, vec![15, 30, 45]);
}

#[test]
fn mono_envelope_reaches_target_within_attack_time() {
    let mut voice = MonoVoice::new(flat_table(), 44_100);
    voice.note_on(60, 127);
    let out = voice.process(4_410);
    assert_eq!(out[4_409], FIXED_ONE);

    voice.note_off(60);
    let out = voice.process(4_410);
    assert_eq!(out[4_409], 0);

    // With the envelope at rest and no note held, the voice is
    // inactive and renders silence.
    let out = voice.process(8);
    assert_eq!(out, vec![0; 8]);
}

#[test]
fn mono_velocity_scales_the_envelope_target() {
    let mut voice = MonoVoice::new(flat_table(), 44_100);
    voice.note_on(60, 64);
    voice.process(44_100);
    assert_eq!(*voice.velocity.get_value(), 64 * FIXED_ONE / 127);
}

#[test]
fn mono_ignores_unknown_and_malformed_events() {
    let mut voice = MonoVoice::new(flat_table(), 44_100);
    voice.process_midi_event([200, 60, 100]);
    assert_eq!(voice.get_current_note(), None);
    voice.process_midi_event([144, 200, 100]);
    assert_eq!(voice.get_current_note(), None);
    voice.process_midi_event([144, 60, 100]);
    assert_eq!(voice.get_current_note(), Some(60));
    voice.process_midi_event([128, 60, 0]);
    assert_eq!(voice.get_current_note(), None);
}

#[test]
fn mono_releasing_a_foreign_note_changes_nothing() {
    let mut voice = MonoVoice::new(flat_table(), 44_100);
    voice.note_on(60, 127);
    voice.note_off(61);
    assert_eq!(voice.get_current_note(), Some(60));
    assert_eq!(*voice.velocity.get_target(), FIXED_ONE);
}

#[test]
fn beating_oscillators_differ_by_the_beat_frequency() {
    let mut voice = BeatingVoice::new(flat_table(), flat_table(), 44_100);
    voice.set_division(FIXED_ONE / 2);
    assert_eq!(voice.division, Division::Quarter);

    voice.note_on(69, 127);
    // 120 BPM quarter notes beat twice a second; A4 is 440 Hz.
    voice.update_frequencies(120_000);
    assert_eq!(voice.osc1.state.frequency - voice.osc2.state.frequency, 2_000);
    assert_eq!(voice.osc1.state.frequency, 441_001);
    assert_eq!(voice.osc2.state.frequency, 439_001);
}

#[test]
fn beating_stereo_is_symmetric_at_centre_pan() {
    let mut voice = BeatingVoice::new(flat_table(), flat_table(), 44_100);
    voice.note_on(69, 127);
    voice.update_frequencies(120_000);
    let (left, right) = voice.process(2);
    assert_eq!(left, right);
    assert_eq!(left, vec![15, 30]);
}

#[test]
fn beating_note_off_matches_the_held_note_only() {
    let mut voice = BeatingVoice::new(flat_table(), flat_table(), 44_100);
    voice.note_on(69, 127);
    voice.note_off(70);
    assert_eq!(voice.note, Some(69));
    assert_eq!(*voice.velocity.get_target(), FIXED_ONE);
    voice.note_off(69);
    assert_eq!(voice.note, None);
    assert_eq!(*voice.velocity.get_target(), 0);
}

#[test]
fn empty_blocks_render_nothing() {
    let mut voice = MonoVoice::new(flat_table(), 44_100);
    voice.note_on(60, 127);
    let out = voice.process(0);
    assert_eq!(out, Vec::<i64>::new());
    // The next block starts where the empty one left off.
    let out = voice.process(1);
    assert_eq!(out, vec![15]);
}

#[test]
fn inactive_beating_voice_renders_silence() {
    let mut voice = BeatingVoice::new(flat_table(), flat_table(), 44_100);
    let (left, right) = voice.process(4);
    assert_eq!(left, vec![0; 4]);
    assert_eq!(right, vec![0; 4]);
}
