//! Per-sample voice engines: note events drive an envelope and
//! oscillator frequencies, and a render loop draws one sample per
//! position of the output block.
//!
//! [`MonoVoice`] plays the oldest tracked note through one oscillator.
//! [`BeatingVoice`] plays one note through two detuned oscillators
//! whose difference frequency beats at a tempo subdivision, mixed in
//! stereo by a smoothed pan position.
//!
//! All amplitudes are Q16 fixed-point: output samples are scaled by
//! level and velocity envelopes and bounded by a small multiple of
//! [`FIXED_ONE`].

use vstd::prelude::*;

verus! {

use crate::{FIXED_ONE, fixed_mul, fixed_scale};
use crate::generator::{Oscillator, WaveTable, SAMPLE_RATE_LIMIT};
use crate::maths::{midi_pitch_to_freq, pitch_frequency_millihertz};
use crate::division::{Division, division_of_step, division_step, get_division, tempo_multiplier,
    beats_frequency_millihertz, TEMPO_MULTIPLIER_UNIT};
use crate::maths::get_beats_frequencies;
use crate::notetracker::{NoteTracker, note_on_spec, note_off_spec};
use crate::targetval::{advanced_n, lemma_absolute_rate_reaches, Rate, TargetVal, VAL_LIMIT};

/// Note-on status byte of a MIDI channel-one message.
pub const NOTE_ON_STATUS: u8 = 144;

/// Note-off status byte of a MIDI channel-one message.
pub const NOTE_OFF_STATUS: u8 = 128;

/// Reciprocal of the attack time in seconds: the velocity envelope
/// reaches its target one tenth of a second after a note starts.
pub const ATTACK_PER_SECOND: i64 = 10;

/// Reciprocal of the decay time in seconds: the envelope returns to
/// zero one tenth of a second after the last note ends.
pub const DECAY_PER_SECOND: i64 = 10;

/// Per-sample smoothing fraction for level and pan parameters,
/// in units of `1 / FIXED_ONE`.
pub const PARAM_SMOOTHING: i64 = 66;

/// A smoothed parameter confined to the unit interval in Q16.
pub open spec fn in_unit(tv: TargetVal) -> bool {
    &&& 0 <= tv.value() <= FIXED_ONE
    &&& 0 <= tv.target() <= FIXED_ONE
}

/// The envelope target a note velocity sets: the velocity as a Q16
/// fraction of full scale.
pub open spec fn velocity_target(velocity: int) -> int {
    velocity * (FIXED_ONE as int) / 127
}

/// The absolute per-sample envelope rate that crosses `target` in
/// `1 / per_second` seconds at `sample_rate`: the target divided by
/// the number of samples in that time, rounded up so the envelope
/// arrives within it.
pub open spec fn envelope_rate(target: int, sample_rate: int, per_second: int) -> int {
    (target + sample_rate / per_second - 1) / (sample_rate / per_second)
}

/// The rate a note-on installs reaches the envelope target within
/// the attack time: starting from silence, at most one attack's
/// worth of samples (`sample_rate / ATTACK_PER_SECOND`) brings the
/// envelope to the target exactly. The rate scales with the target,
/// so the time does not depend on the velocity.
pub proof fn lemma_attack_rate_reaches_target_in_time(tv: TargetVal, sample_rate: int)
    requires
        tv.wf(),
        tv.value() == 0,
        0 < tv.target(),
        10 <= sample_rate,
        tv.inc_rate() == Rate::Absolute(
            envelope_rate(tv.target(), sample_rate, ATTACK_PER_SECOND as int) as i64,
        ),
    ensures
        exists|n: nat|
            n <= sample_rate / (ATTACK_PER_SECOND as int) && advanced_n(tv, n) == tv.target(),
{
    let t = tv.target();
    let a = sample_rate / (ATTACK_PER_SECOND as int);
    let step = (t + a - 1) / a;
    assert(1 <= a);
    assert(1 <= step && t <= a * step && step <= t) by (nonlinear_arith)
        requires 1 <= a, 1 <= t, step == (t + a - 1) / a;
    let n = (t + step - 1) / step;
    assert(1 <= n && (n - 1) * step < t <= n * step) by (nonlinear_arith)
        requires 1 <= step, 1 <= t, n == (t + step - 1) / step;
    assert(n <= a) by (nonlinear_arith)
        requires (n - 1) * step < t, t <= a * step, 1 <= step, 1 <= n, 1 <= a;
    assert(0 <= step <= VAL_LIMIT);
    lemma_absolute_rate_reaches(tv, step as i64, n as nat);
    assert(advanced_n(tv, n as nat) == t);
}

/// Computes the attack and decay rates a note-on installs for a
/// given envelope target.
fn note_rates(target: i64, sample_rate: i64) -> (r: (i64, i64))
    requires
        0 <= target <= FIXED_ONE,
        10 <= sample_rate <= SAMPLE_RATE_LIMIT,
    ensures
        r.0 == envelope_rate(target as int, sample_rate as int, ATTACK_PER_SECOND as int),
        r.1 == envelope_rate(target as int, sample_rate as int, DECAY_PER_SECOND as int),
        0 <= r.0 <= FIXED_ONE,
        0 <= r.1 <= FIXED_ONE,
{
    let attack_samples: i64 = sample_rate / ATTACK_PER_SECOND;
    let decay_samples: i64 = sample_rate / DECAY_PER_SECOND;
    let inc: i64 = (target + attack_samples - 1) / attack_samples;
    let dec: i64 = (target + decay_samples - 1) / decay_samples;
    proof {
        let t = target as int;
        let a = attack_samples as int;
        let d = decay_samples as int;
        assert(0 <= (t + a - 1) / a <= t || (t == 0 && (t + a - 1) / a == 0)) by (nonlinear_arith)
            requires 0 <= t, 1 <= a;
        assert(0 <= (t + d - 1) / d <= t || (t == 0 && (t + d - 1) / d == 0)) by (nonlinear_arith)
            requires 0 <= t, 1 <= d;
    }
    (inc, dec)
}

/// A monophonic voice: the oldest tracked note sounds through a
/// single oscillator, scaled by a smoothed level and a velocity
/// envelope.
pub struct MonoVoice {
    pub level: TargetVal,
    pub velocity: TargetVal,
    pub tracker: NoteTracker,
    pub oscillator: Oscillator,
}

/// A voice renders only while its envelope carries signal or a note
/// is held; otherwise its output block is silence.
pub open spec fn mono_active(v: MonoVoice) -> bool {
    v.velocity.value() > 0 || v.tracker.playing().len() > 0
}

/// The voice with its oscillator retuned to the current note, as the
/// render loop sets it before the first sample; without a (valid)
/// current note the frequency keeps its previous value.
pub open spec fn mono_prepared(v: MonoVoice) -> MonoVoice {
    if v.tracker.playing().len() > 0 && v.tracker.playing()[0] <= 127 {
        MonoVoice {
            oscillator: v.oscillator.with_frequency(
                pitch_frequency_millihertz(v.tracker.playing()[0] as int),
            ),
            ..v
        }
    } else {
        v
    }
}

/// How a note-on changes a monophonic voice: the tracker takes the
/// note, and the velocity envelope is pointed at the note's velocity
/// with rates that cross it in the attack time and return in the
/// decay time. Level and oscillator are untouched.
pub open spec fn mono_note_on_applied(pre: MonoVoice, post: MonoVoice, note: u8, velocity: u8) -> bool {
    &&& note_on_spec(pre.tracker, post.tracker, note)
    &&& post.velocity.target() == velocity_target(velocity as int)
    &&& post.velocity.value() == pre.velocity.value()
    &&& post.velocity.inc_rate() == Rate::Absolute(
        envelope_rate(
            velocity_target(velocity as int),
            pre.oscillator.state.sample_rate as int,
            ATTACK_PER_SECOND as int,
        ) as i64,
    )
    &&& post.velocity.dec_rate() == Rate::Absolute(
        envelope_rate(
            velocity_target(velocity as int),
            pre.oscillator.state.sample_rate as int,
            DECAY_PER_SECOND as int,
        ) as i64,
    )
    &&& post.level == pre.level
    &&& post.oscillator == pre.oscillator
}

/// How a note-off changes a monophonic voice: the tracker drops the
/// note, and if no playing note remains the envelope is pointed at
/// silence. Everything else is untouched.
pub open spec fn mono_note_off_applied(pre: MonoVoice, post: MonoVoice, note: u8) -> bool {
    &&& note_off_spec(pre.tracker, post.tracker, note)
    &&& post.velocity == (TargetVal {
        target: if post.tracker.playing().len() == 0 {
            0
        } else {
            pre.velocity.target
        },
        ..pre.velocity
    })
    &&& post.level == pre.level
    &&& post.oscillator == pre.oscillator
}

/// The voice as it stands after rendering one sample.
pub open spec fn mono_step(v: MonoVoice) -> MonoVoice {
    MonoVoice {
        level: v.level.stepped(),
        velocity: v.velocity.stepped(),
        oscillator: v.oscillator.stepped(),
        ..v
    }
}

/// The sample rendering one step from `v` emits: the oscillator's
/// current sample scaled by the advanced level and velocity.
pub open spec fn mono_step_sample(v: MonoVoice) -> int {
    fixed_scale(fixed_scale(v.oscillator.current_sample(), v.level.advanced()), v.velocity.advanced())
}

/// The voice after rendering `n` samples.
pub open spec fn mono_stepped_n(v: MonoVoice, n: nat) -> MonoVoice
    decreases n,
{
    if n == 0 {
        v
    } else {
        mono_step(mono_stepped_n(v, (n - 1) as nat))
    }
}

/// The block of `n` samples rendered from `v`.
pub open spec fn mono_samples(v: MonoVoice, n: nat) -> Seq<i64>
    decreases n,
{
    if n == 0 {
        Seq::empty()
    } else {
        mono_samples(v, (n - 1) as nat).push(
            mono_step_sample(mono_stepped_n(v, (n - 1) as nat)) as i64,
        )
    }
}

impl MonoVoice {
    pub open spec fn wf(self) -> bool {
        &&& self.level.wf()
        &&& self.velocity.wf()
        &&& in_unit(self.level)
        &&& in_unit(self.velocity)
        &&& self.tracker.wf()
        &&& self.oscillator.wf()
        &&& self.oscillator.state.sample_rate >= 10
    }

    /// A fresh voice: full level, silent envelope, one playing slot
    /// with nine overflow slots, oscillator at the table start.
    pub fn new(wavetable: WaveTable, sample_rate: i64) -> (r: MonoVoice)
        requires
            wavetable.wf(),
            10 <= sample_rate <= SAMPLE_RATE_LIMIT,
        ensures
            r.wf(),
            r.level.target() == FIXED_ONE,
            r.level.value() == FIXED_ONE,
            r.velocity.target() == 0,
            r.velocity.value() == 0,
            r.tracker.polyphony == 1,
            r.tracker.extra_notes_count == 9,
            r.tracker.playing() == Seq::<u8>::empty(),
            r.tracker.extras() == Seq::<u8>::empty(),
            r.oscillator.wavetable.values@ == wavetable.values@,
            r.oscillator.state.sample_rate == sample_rate,
    {
        MonoVoice {
            level: TargetVal::new(
                Rate::Relative(PARAM_SMOOTHING),
                Rate::Relative(PARAM_SMOOTHING),
                FIXED_ONE,
            ),
            velocity: TargetVal::new(Rate::Absolute(0), Rate::Absolute(0), 0),
            tracker: NoteTracker::new(1, 9),
            oscillator: Oscillator::new(wavetable, sample_rate),
        }
    }

    /// The note a monophonic voice sounds: the oldest playing note.
    pub fn get_current_note(&self) -> (r: Option<u8>)
        ensures
            r == if self.tracker.playing().len() > 0 {
                Some(self.tracker.playing()[0])
            } else {
                None::<u8>
            },
    {
        let notes: Vec<u8> = self.tracker.get_playing_notes();
        if notes.len() > 0 {
            Some(notes[0])
        } else {
            None
        }
    }

    /// Sets the level target; the level itself glides there over the
    /// following samples.
    pub fn set_level(&mut self, target: i64)
        requires
            old(self).wf(),
            0 <= target <= FIXED_ONE,
        ensures
            final(self).wf(),
            final(self).level == (TargetVal { target, ..old(self).level }),
            final(self).velocity == old(self).velocity,
            final(self).tracker == old(self).tracker,
            final(self).oscillator == old(self).oscillator,
    {
        self.level.set_target(target);
    }

    /// Propagates a changed host sample rate into the oscillator.
    pub fn set_sample_rate(&mut self, sample_rate: i64)
        requires
            old(self).wf(),
            10 <= sample_rate <= SAMPLE_RATE_LIMIT,
        ensures
            final(self).wf(),
            final(self).oscillator.state.sample_rate == sample_rate,
            final(self).level == old(self).level,
            final(self).velocity == old(self).velocity,
            final(self).tracker == old(self).tracker,
    {
        self.oscillator.set_sample_rate(sample_rate);
    }

    /// Starts a note: tracks it and points the velocity envelope at
    /// the note's velocity, with rates that reach it in the attack
    /// time and return to rest in the decay time.
    pub fn note_on(&mut self, note: u8, velocity: u8)
        requires
            old(self).wf(),
            velocity <= 127,
        ensures
            final(self).wf(),
            mono_note_on_applied(*old(self), *final(self), note, velocity),
    {
        self.tracker.note_on(note);

        let target: i64 = (velocity as i64) * FIXED_ONE / 127;
        proof {
            assert((velocity as i64) * FIXED_ONE / 127 <= FIXED_ONE) by (nonlinear_arith)
                requires 0 <= velocity <= 127;
            assert(0 <= (velocity as i64) * FIXED_ONE / 127) by (nonlinear_arith)
                requires 0 <= velocity;
        }
        self.velocity.set_target(target);

        let sample_rate: i64 = self.oscillator.get_sample_rate();
        let rates: (i64, i64) = note_rates(target, sample_rate);
        self.velocity.set_inc_rate(Rate::Absolute(rates.0));
        self.velocity.set_dec_rate(Rate::Absolute(rates.1));
    }

    /// Ends a note: untracks it, and when no playing note remains,
    /// points the envelope at silence so the voice rings out over the
    /// decay time.
    pub fn note_off(&mut self, note: u8)
        requires
            old(self).wf(),
        ensures
            final(self).wf(),
            mono_note_off_applied(*old(self), *final(self), note),
    {
        self.tracker.note_off(note);

        if self.get_current_note().is_none() {
            self.velocity.set_target(0);
        }
    }

    /// Applies one decoded MIDI message: a note-off or note-on status
    /// byte drives the corresponding transition; any other status,
    /// or a data byte outside the seven-bit range, is ignored.
    pub fn process_midi_event(&mut self, data: [u8; 3])
        requires
            old(self).wf(),
        ensures
            final(self).wf(),
            ({
                if data[0] == NOTE_OFF_STATUS && data[1] <= 127 {
                    mono_note_off_applied(*old(self), *final(self), data[1])
                } else if data[0] == NOTE_ON_STATUS && data[1] <= 127 && data[2] <= 127 {
                    mono_note_on_applied(*old(self), *final(self), data[1], data[2])
                } else {
                    *final(self) == *old(self)
                }
            }),
    {
        if data[0] == NOTE_OFF_STATUS {
            if data[1] <= 127 {
                self.note_off(data[1]);
            }
        } else if data[0] == NOTE_ON_STATUS {
            if data[1] <= 127 && data[2] <= 127 {
                self.note_on(data[1], data[2]);
            }
        }
    }

    /// Renders a block of samples. While the voice is active, the
    /// oscillator is retuned to the current note and each output
    /// sample advances the envelopes once and draws one oscillator
    /// sample; an inactive voice leaves a block of silence and does
    /// not advance.
    pub fn process(&mut self, samples: usize) -> (out: Vec<i64>)
        requires
            old(self).wf(),
        ensures
            final(self).wf(),
            out@.len() == samples,
            mono_active(*old(self)) ==> {
                &&& *final(self) == mono_stepped_n(mono_prepared(*old(self)), samples as nat)
                &&& out@ == mono_samples(mono_prepared(*old(self)), samples as nat)
            },
            !mono_active(*old(self)) ==> {
                &&& *final(self) == *old(self)
                &&& forall|i: int| 0 <= i < samples ==> out@[i] == 0
            },
    {
        let active: bool = *self.velocity.get_value() > 0 || self.get_current_note().is_some();
        if !active {
            let silence: Vec<i64> = vec![0; samples];
            proof {
                assert(silence@ =~= Seq::new(samples as nat, |i: int| 0i64));
            }
            return silence;
        }

        match self.get_current_note() {
            Some(note) => {
                if note <= 127 {
                    let frequency: i64 = midi_pitch_to_freq(note);
                    self.oscillator.set_frequency(frequency);
                }
            },
            None => (),
        }
        let start = Ghost(*self);
        proof {
            assert(*self == mono_prepared(*old(self)));
        }

        let mut out: Vec<i64> = Vec::new();
        let mut i: usize = 0;
        while i < samples
            invariant
                0 <= i <= samples,
                start@.wf(),
                *self == mono_stepped_n(start@, i as nat),
                self.wf(),
                out@.len() == i,
                out@ == mono_samples(start@, i as nat),
            decreases samples - i,
        {
            let previous = Ghost(*self);
            self.level.advance();
            self.velocity.advance();
            let s: i64 = self.oscillator.next_sample();
            let amp: i64 = fixed_mul(fixed_mul(s, *self.level.get_value()), *self.velocity.get_value());
            out.push(amp);
            proof {
                assert(*self == mono_step(previous@));
                assert(amp == mono_step_sample(previous@));
            }
            i = i + 1;
        }
        out
    }
}

/// A two-oscillator stereo voice: one held note sounds through two
/// oscillators detuned so their difference frequency beats at a
/// tempo subdivision, mixed left/right by a smoothed pan position.
pub struct BeatingVoice {
    pub level: TargetVal,
    pub pan: TargetVal,
    pub velocity: TargetVal,
    pub division: Division,
    pub note: Option<u8>,
    pub osc1: Oscillator,
    pub osc2: Oscillator,
}

pub open spec fn duo_active(v: BeatingVoice) -> bool {
    v.velocity.value() > 0 || v.note is Some
}

/// How retuning changes a beating voice holding a note: only the two
/// oscillator frequencies move. The upper (first) oscillator exceeds
/// the lower by exactly the division's beat frequency at the given
/// tempo, and their product approximates the square of the note's
/// frequency as [`crate::maths::get_beats_frequencies`] guarantees.
pub open spec fn duo_retuned(pre: BeatingVoice, post: BeatingVoice, tempo_millibpm: int) -> bool {
    match pre.note {
        None => post == pre,
        Some(p) => {
            let beats = tempo_millibpm * tempo_multiplier(pre.division) / (
            TEMPO_MULTIPLIER_UNIT as int);
            let target = pitch_frequency_millihertz(p as int);
            let f_low = post.osc2.state.frequency as int;
            let f_high = post.osc1.state.frequency as int;
            &&& post.level == pre.level
            &&& post.pan == pre.pan
            &&& post.velocity == pre.velocity
            &&& post.division == pre.division
            &&& post.note == pre.note
            &&& post.osc1 == pre.osc1.with_frequency(f_high)
            &&& post.osc2 == pre.osc2.with_frequency(f_low)
            &&& f_high - f_low == beats
            &&& 0 <= f_low <= f_high
            &&& 4 * f_low * f_high <= 4 * target * target
            &&& 4 * target * target < 4 * f_low * f_high + 4 * (beats + 2 * target)
        },
    }
}

/// How a note-on changes a beating voice: the note becomes the held
/// note, and the velocity envelope is pointed at the note's velocity
/// with rates that cross it in the attack time and return in the
/// decay time. Everything else is untouched.
pub open spec fn duo_note_on_applied(pre: BeatingVoice, post: BeatingVoice, note: u8, velocity: u8) -> bool {
    &&& post.note == Some(note)
    &&& post.velocity.target() == velocity_target(velocity as int)
    &&& post.velocity.value() == pre.velocity.value()
    &&& post.velocity.inc_rate() == Rate::Absolute(
        envelope_rate(
            velocity_target(velocity as int),
            pre.osc1.state.sample_rate as int,
            ATTACK_PER_SECOND as int,
        ) as i64,
    )
    &&& post.velocity.dec_rate() == Rate::Absolute(
        envelope_rate(
            velocity_target(velocity as int),
            pre.osc1.state.sample_rate as int,
            DECAY_PER_SECOND as int,
        ) as i64,
    )
    &&& post.level == pre.level
    &&& post.pan == pre.pan
    &&& post.division == pre.division
    &&& post.osc1 == pre.osc1
    &&& post.osc2 == pre.osc2
}

/// How a note-off changes a beating voice: releasing the held note
/// clears it and points the envelope at silence; releasing any other
/// note changes nothing.
pub open spec fn duo_note_off_applied(pre: BeatingVoice, post: BeatingVoice, note: u8) -> bool {
    if pre.note == Some(note) {
        post == (BeatingVoice {
            note: None,
            velocity: TargetVal { target: 0, ..pre.velocity },
            ..pre
        })
    } else {
        post == pre
    }
}

/// The voice as it stands after rendering one stereo sample.
pub open spec fn duo_step(v: BeatingVoice) -> BeatingVoice {
    BeatingVoice {
        level: v.level.stepped(),
        pan: v.pan.stepped(),
        velocity: v.velocity.stepped(),
        osc1: v.osc1.stepped(),
        osc2: v.osc2.stepped(),
        ..v
    }
}

/// The left sample one render step from `v` emits: the first
/// oscillator weighted away from the pan position and the second
/// toward it, scaled by the advanced level and velocity.
pub open spec fn duo_step_left(v: BeatingVoice) -> int {
    let mix = fixed_scale(v.osc1.current_sample(), FIXED_ONE - v.pan.advanced()) + fixed_scale(
        v.osc2.current_sample(),
        v.pan.advanced(),
    );
    fixed_scale(fixed_scale(mix, v.level.advanced()), v.velocity.advanced())
}

/// The right sample one render step from `v` emits, with the pan
/// weights swapped.
pub open spec fn duo_step_right(v: BeatingVoice) -> int {
    let mix = fixed_scale(v.osc1.current_sample(), v.pan.advanced()) + fixed_scale(
        v.osc2.current_sample(),
        FIXED_ONE - v.pan.advanced(),
    );
    fixed_scale(fixed_scale(mix, v.level.advanced()), v.velocity.advanced())
}

/// The voice after rendering `n` stereo samples.
pub open spec fn duo_stepped_n(v: BeatingVoice, n: nat) -> BeatingVoice
    decreases n,
{
    if n == 0 {
        v
    } else {
        duo_step(duo_stepped_n(v, (n - 1) as nat))
    }
}

/// The left channel of `n` samples rendered from `v`.
pub open spec fn duo_left_samples(v: BeatingVoice, n: nat) -> Seq<i64>
    decreases n,
{
    if n == 0 {
        Seq::empty()
    } else {
        duo_left_samples(v, (n - 1) as nat).push(
            duo_step_left(duo_stepped_n(v, (n - 1) as nat)) as i64,
        )
    }
}

/// The right channel of `n` samples rendered from `v`.
pub open spec fn duo_right_samples(v: BeatingVoice, n: nat) -> Seq<i64>
    decreases n,
{
    if n == 0 {
        Seq::empty()
    } else {
        duo_right_samples(v, (n - 1) as nat).push(
            duo_step_right(duo_stepped_n(v, (n - 1) as nat)) as i64,
        )
    }
}

impl BeatingVoice {
    pub open spec fn wf(self) -> bool {
        &&& self.level.wf()
        &&& self.pan.wf()
        &&& self.velocity.wf()
        &&& in_unit(self.level)
        &&& in_unit(self.pan)
        &&& in_unit(self.velocity)
        &&& self.osc1.wf()
        &&& self.osc2.wf()
        &&& self.osc1.state.sample_rate >= 10
        &&& self.osc2.state.sample_rate >= 10
        &&& match self.note {
            Some(p) => p <= 127,
            None => true,
        }
    }

    /// A fresh beating voice: full level, centred pan, silent
    /// envelope, whole-note-dotted division, no note held.
    pub fn new(wavetable1: WaveTable, wavetable2: WaveTable, sample_rate: i64) -> (r: BeatingVoice)
        requires
            wavetable1.wf(),
            wavetable2.wf(),
            10 <= sample_rate <= SAMPLE_RATE_LIMIT,
        ensures
            r.wf(),
            r.level.target() == FIXED_ONE && r.level.value() == FIXED_ONE,
            r.pan.target() == FIXED_ONE / 2 && r.pan.value() == FIXED_ONE / 2,
            r.velocity.target() == 0 && r.velocity.value() == 0,
            r.division == division_of_step(0),
            r.note is None,
            r.osc1.wavetable.values@ == wavetable1.values@,
            r.osc2.wavetable.values@ == wavetable2.values@,
            r.osc1.state.sample_rate == sample_rate,
            r.osc2.state.sample_rate == sample_rate,
    {
        BeatingVoice {
            level: TargetVal::new(
                Rate::Relative(PARAM_SMOOTHING),
                Rate::Relative(PARAM_SMOOTHING),
                FIXED_ONE,
            ),
            pan: TargetVal::new(
                Rate::Relative(PARAM_SMOOTHING),
                Rate::Relative(PARAM_SMOOTHING),
                FIXED_ONE / 2,
            ),
            velocity: TargetVal::new(Rate::Absolute(0), Rate::Absolute(0), 0),
            division: get_division(0),
            note: None,
            osc1: Oscillator::new(wavetable1, sample_rate),
            osc2: Oscillator::new(wavetable2, sample_rate),
        }
    }

    /// Sets the level target.
    pub fn set_level(&mut self, target: i64)
        requires
            old(self).wf(),
            0 <= target <= FIXED_ONE,
        ensures
            final(self).wf(),
            *final(self) == (BeatingVoice {
                level: TargetVal { target, ..old(self).level },
                ..*old(self)
            }),
    {
        self.level.set_target(target);
    }

    /// Sets the pan target: `0` is hard left, `FIXED_ONE` hard right.
    pub fn set_pan(&mut self, target: i64)
        requires
            old(self).wf(),
            0 <= target <= FIXED_ONE,
        ensures
            final(self).wf(),
            *final(self) == (BeatingVoice {
                pan: TargetVal { target, ..old(self).pan },
                ..*old(self)
            }),
    {
        self.pan.set_target(target);
    }

    /// Selects the beat division from a Q16 parameter in `[0, 1]`.
    pub fn set_division(&mut self, param: i64)
        requires
            old(self).wf(),
        ensures
            final(self).wf(),
            *final(self) == (BeatingVoice {
                division: division_of_step(division_step(param as int)),
                ..*old(self)
            }),
    {
        self.division = get_division(param);
    }

    /// Propagates a changed host sample rate into both oscillators.
    pub fn set_sample_rate(&mut self, sample_rate: i64)
        requires
            old(self).wf(),
            10 <= sample_rate <= SAMPLE_RATE_LIMIT,
        ensures
            final(self).wf(),
            final(self).osc1.state.sample_rate == sample_rate,
            final(self).osc2.state.sample_rate == sample_rate,
            final(self).level == old(self).level,
            final(self).pan == old(self).pan,
            final(self).velocity == old(self).velocity,
            final(self).division == old(self).division,
            final(self).note == old(self).note,
    {
        self.osc1.set_sample_rate(sample_rate);
        self.osc2.set_sample_rate(sample_rate);
    }

    /// Starts a note: holds it as the sounding note and points the
    /// velocity envelope at the note's velocity, with rates that
    /// reach it in the attack time and return to rest in the decay
    /// time.
    pub fn note_on(&mut self, note: u8, velocity: u8)
        requires
            old(self).wf(),
            note <= 127,
            velocity <= 127,
        ensures
            final(self).wf(),
            duo_note_on_applied(*old(self), *final(self), note, velocity),
    {
        self.note = Some(note);

        let target: i64 = (velocity as i64) * FIXED_ONE / 127;
        proof {
            assert(0 <= (velocity as i64) * FIXED_ONE / 127 <= FIXED_ONE) by (nonlinear_arith)
                requires 0 <= velocity <= 127;
        }
        self.velocity.set_target(target);

        let sample_rate: i64 = self.osc1.get_sample_rate();
        let rates: (i64, i64) = note_rates(target, sample_rate);
        self.velocity.set_inc_rate(Rate::Absolute(rates.0));
        self.velocity.set_dec_rate(Rate::Absolute(rates.1));
    }

    /// Ends the held note if it is the one released: the note slot
    /// clears and the envelope heads for silence, so the voice rings
    /// out over the decay time. Releasing any other note changes
    /// nothing.
    pub fn note_off(&mut self, note: u8)
        requires
            old(self).wf(),
        ensures
            final(self).wf(),
            duo_note_off_applied(*old(self), *final(self), note),
    {
        let release: bool = match self.note {
            Some(held) => held == note,
            None => false,
        };
        if release {
            self.note = None;
            self.velocity.set_target(0);
        }
    }

    /// Applies one decoded MIDI message: a note-off or note-on status
    /// byte drives the corresponding transition; any other status,
    /// or a data byte outside the seven-bit range, is ignored.
    pub fn process_midi_event(&mut self, data: [u8; 3])
        requires
            old(self).wf(),
        ensures
            final(self).wf(),
            ({
                if data[0] == NOTE_OFF_STATUS && data[1] <= 127 {
                    duo_note_off_applied(*old(self), *final(self), data[1])
                } else if data[0] == NOTE_ON_STATUS && data[1] <= 127 && data[2] <= 127 {
                    duo_note_on_applied(*old(self), *final(self), data[1], data[2])
                } else {
                    *final(self) == *old(self)
                }
            }),
    {
        if data[0] == NOTE_OFF_STATUS {
            if data[1] <= 127 {
                self.note_off(data[1]);
            }
        } else if data[0] == NOTE_ON_STATUS {
            if data[1] <= 127 && data[2] <= 127 {
                self.note_on(data[1], data[2]);
            }
        }
    }

    /// Retunes both oscillators to the held note at the given tempo:
    /// the pair beats at the division's rate around the note's pitch.
    /// Without a held note nothing changes (the previous frequencies
    /// keep ringing out through the decay).
    pub fn update_frequencies(&mut self, tempo_millibpm: i64)
        requires
            old(self).wf(),
            0 <= tempo_millibpm <= 500_000_000,
        ensures
            final(self).wf(),
            duo_retuned(*old(self), *final(self), tempo_millibpm as int),
    {
        let held: Option<u8> = self.note;
        match held {
            Some(p) => {
                let f_beats: i64 = beats_frequency_millihertz(tempo_millibpm, self.division);
                let f_target: i64 = midi_pitch_to_freq(p);
                let pair: (i64, i64) = get_beats_frequencies(f_target, f_beats);
                self.osc1.set_frequency(pair.1);
                self.osc2.set_frequency(pair.0);
            },
            None => (),
        }
    }

    /// Renders a block of stereo samples. While the voice is active,
    /// each output position advances the level, pan and velocity
    /// once, draws one sample from each oscillator and mixes them by
    /// the pan weights; an inactive voice leaves two blocks of
    /// silence and does not advance.
    pub fn process(&mut self, samples: usize) -> (out: (Vec<i64>, Vec<i64>))
        requires
            old(self).wf(),
        ensures
            final(self).wf(),
            out.0@.len() == samples,
            out.1@.len() == samples,
            duo_active(*old(self)) ==> {
                &&& *final(self) == duo_stepped_n(*old(self), samples as nat)
                &&& out.0@ == duo_left_samples(*old(self), samples as nat)
                &&& out.1@ == duo_right_samples(*old(self), samples as nat)
            },
            !duo_active(*old(self)) ==> {
                &&& *final(self) == *old(self)
                &&& (forall|i: int| 0 <= i < samples ==> out.0@[i] == 0)
                &&& (forall|i: int| 0 <= i < samples ==> out.1@[i] == 0)
            },
    {
        let active: bool = *self.velocity.get_value() > 0 || self.note.is_some();
        if !active {
            let left: Vec<i64> = vec![0; samples];
            let right: Vec<i64> = vec![0; samples];
            return (left, right);
        }

        let start = Ghost(*self);
        let mut out_left: Vec<i64> = Vec::new();
        let mut out_right: Vec<i64> = Vec::new();
        let mut i: usize = 0;
        while i < samples
            invariant
                0 <= i <= samples,
                start@.wf(),
                *self == duo_stepped_n(start@, i as nat),
                self.wf(),
                out_left@.len() == i,
                out_right@.len() == i,
                out_left@ == duo_left_samples(start@, i as nat),
                out_right@ == duo_right_samples(start@, i as nat),
            decreases samples - i,
        {
            let previous = Ghost(*self);
            self.level.advance();
            self.pan.advance();
            self.velocity.advance();
            let s1: i64 = self.osc1.next_sample();
            let s2: i64 = self.osc2.next_sample();
            let pan: i64 = *self.pan.get_value();
            let level: i64 = *self.level.get_value();
            let vel: i64 = *self.velocity.get_value();
            let left_mix: i64 = fixed_mul(s1, FIXED_ONE - pan) + fixed_mul(s2, pan);
            let right_mix: i64 = fixed_mul(s1, pan) + fixed_mul(s2, FIXED_ONE - pan);
            let left: i64 = fixed_mul(fixed_mul(left_mix, level), vel);
            let right: i64 = fixed_mul(fixed_mul(right_mix, level), vel);
            out_left.push(left);
            out_right.push(right);
            proof {
                assert(*self == duo_step(previous@));
                assert(left == duo_step_left(previous@));
                assert(right == duo_step_right(previous@));
            }
            i = i + 1;
        }
        (out_left, out_right)
    }
}

} // verus!
