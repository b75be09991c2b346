//! Wavetable oscillators: a phase accumulator stepping through a
//! precomputed one-period table of Q16 samples, with linear
//! interpolation between adjacent entries.
//!
//! Positions inside the table are Q16 fixed-point: a position `p`
//! addresses entry `p / FIXED_ONE` with fractional offset
//! `p % FIXED_ONE`. Each sample advances the position by
//! `table-span * frequency / sample-rate`, wrapping at the end of the
//! table, so the produced waveform has the configured frequency.

use vstd::prelude::*;

verus! {

use vstd::arithmetic::div_mod::{lemma_add_mod_noop, lemma_small_mod, lemma_mod_bound};

use crate::FIXED_ONE;

/// Largest frequency an oscillator accepts, in millihertz (100 kHz).
pub const FREQ_LIMIT: i64 = 100_000_000;

/// Largest sample rate an oscillator accepts, in hertz.
pub const SAMPLE_RATE_LIMIT: i64 = 10_000_000;

/// Largest number of entries a wavetable may hold.
pub const TABLE_LEN_LIMIT: usize = 65536;

/// The table entry following `index`, wrapping past the last entry.
pub open spec fn table_next(len: int, index: int) -> int {
    if index == len - 1 {
        0
    } else {
        index + 1
    }
}

/// Linear interpolation into one period of samples at a Q16 position:
/// between the entry at the position's whole part and the following
/// entry (wrapping), weighted by the fractional part, rounding the
/// interpolated offset toward the first entry.
pub open spec fn table_interp(values: Seq<i64>, position: int) -> int {
    let index0 = position / (FIXED_ONE as int);
    let fraction = position % (FIXED_ONE as int);
    let index1 = table_next(values.len() as int, index0);
    let v0 = values[index0] as int;
    let v1 = values[index1] as int;
    if v1 >= v0 {
        v0 + (v1 - v0) * fraction / (FIXED_ONE as int)
    } else {
        v0 - (v0 - v1) * fraction / (FIXED_ONE as int)
    }
}

/// An immutable table of Q16 samples covering one waveform period.
pub struct WaveTable {
    pub values: Vec<i64>,
}

impl WaveTable {
    pub open spec fn wf(self) -> bool {
        &&& 1 <= self.values@.len() <= TABLE_LEN_LIMIT
        &&& forall|i: int|
            0 <= i < self.values@.len() ==> -FIXED_ONE <= #[trigger] self.values@[i] <= FIXED_ONE
    }

    /// Positions run over `[0, span)`, the table length in Q16.
    pub open spec fn span(self) -> int {
        self.values@.len() * (FIXED_ONE as int)
    }

    pub fn new(values: Vec<i64>) -> (r: WaveTable)
        requires
            1 <= values@.len() <= TABLE_LEN_LIMIT,
            forall|i: int| 0 <= i < values@.len() ==> -FIXED_ONE <= #[trigger] values@[i] <= FIXED_ONE,
        ensures
            r.wf(),
            r.values@ == values@,
    {
        WaveTable { values }
    }

    /// The interpolated sample at a Q16 position within the table.
    pub fn get_value(&self, position: i64) -> (r: i64)
        requires
            self.wf(),
            0 <= position < self.span(),
        ensures
            r == table_interp(self.values@, position as int),
            -FIXED_ONE <= r <= FIXED_ONE,
    {
        proof {
            assert(position / FIXED_ONE < self.values@.len()) by (nonlinear_arith)
                requires
                    0 <= position,
                    position < self.values@.len() * FIXED_ONE,
                    0 < FIXED_ONE,
            ;
        }
        let index0: usize = (position / FIXED_ONE) as usize;
        let fraction: i64 = position % FIXED_ONE;
        let index1: usize = if index0 == self.values.len() - 1 {
            0
        } else {
            index0 + 1
        };
        let v0: i64 = self.values[index0];
        let v1: i64 = self.values[index1];
        if v1 >= v0 {
            proof {
                assert(0 <= (v1 - v0) * fraction <= (v1 - v0) * FIXED_ONE) by (nonlinear_arith)
                    requires 0 <= v1 - v0, 0 <= fraction < FIXED_ONE;
                assert((v1 - v0) * FIXED_ONE <= (2 * FIXED_ONE) * FIXED_ONE) by (nonlinear_arith)
                    requires v1 - v0 <= 2 * FIXED_ONE;
                assert((v1 - v0) * fraction / (FIXED_ONE as int) <= v1 - v0) by (nonlinear_arith)
                    requires 0 <= (v1 - v0) * fraction <= (v1 - v0) * FIXED_ONE;
            }
            v0 + (v1 - v0) * fraction / FIXED_ONE
        } else {
            proof {
                assert(0 <= (v0 - v1) * fraction <= (v0 - v1) * FIXED_ONE) by (nonlinear_arith)
                    requires 0 <= v0 - v1, 0 <= fraction < FIXED_ONE;
                assert((v0 - v1) * FIXED_ONE <= (2 * FIXED_ONE) * FIXED_ONE) by (nonlinear_arith)
                    requires v0 - v1 <= 2 * FIXED_ONE;
                assert((v0 - v1) * fraction / (FIXED_ONE as int) <= v0 - v1) by (nonlinear_arith)
                    requires 0 <= (v0 - v1) * fraction <= (v0 - v1) * FIXED_ONE;
            }
            v0 - (v0 - v1) * fraction / FIXED_ONE
        }
    }
}

/// At a position that addresses a table entry exactly, interpolation
/// returns that entry unchanged.
pub proof fn lemma_table_entry_exact(values: Seq<i64>, index: int)
    requires
        0 <= index < values.len(),
    ensures
        table_interp(values, index * (FIXED_ONE as int)) == values[index],
{
    let one = FIXED_ONE as int;
    assert(index * one / one == index && index * one % one == 0) by (nonlinear_arith)
        requires 0 < one, 0 <= index;
    let v0 = values[index] as int;
    let v1 = values[table_next(values.len() as int, index)] as int;
    assert((v1 - v0) * 0 == 0) by (nonlinear_arith);
    assert((v0 - v1) * 0 == 0) by (nonlinear_arith);
}

/// At the midpoint between two adjacent entries whose sum is even,
/// interpolation returns exactly their arithmetic mean.
pub proof fn lemma_table_midpoint_mean(values: Seq<i64>, index: int)
    requires
        0 <= index < values.len(),
        (values[index] + values[table_next(values.len() as int, index)]) % 2 == 0,
    ensures
        table_interp(values, index * (FIXED_ONE as int) + (FIXED_ONE as int) / 2) == (
        values[index] + values[table_next(values.len() as int, index)]) / 2,
{
    let one = FIXED_ONE as int;
    let half = one / 2;
    let position = index * one + half;
    assert(position / one == index && position % one == half) by (nonlinear_arith)
        requires 0 < one, 0 <= index, 0 <= half < one, position == index * one + half;
    let v0 = values[index] as int;
    let v1 = values[table_next(values.len() as int, index)] as int;
    if v1 >= v0 {
        let m = (v1 - v0) / 2;
        assert(v1 - v0 == 2 * m);
        assert((2 * m) * half / one == m) by (nonlinear_arith)
            requires 0 <= m, one == 65536, half == 32768;
        assert(v0 + m == (v0 + v1) / 2);
    } else {
        let m = (v0 - v1) / 2;
        assert(v0 - v1 == 2 * m);
        assert((2 * m) * half / one == m) by (nonlinear_arith)
            requires 0 <= m, one == 65536, half == 32768;
        assert(v0 - m == (v0 + v1) / 2);
    }
}

/// The phase-accumulator state of an oscillator: the configured
/// frequency and sample rate, and the current Q16 table position with
/// its cached per-sample increment.
pub struct OscillatorState {
    pub frequency: i64,
    pub sample_rate: i64,
    pub table_size: usize,
    pub table_position: i64,
    pub table_rate: i64,
}

/// The Q16 positions an oscillator steps per sample: the table span
/// times the frequency over the sample rate.
pub open spec fn rate_spec(table_size: int, frequency: int, sample_rate: int) -> int {
    table_size * (FIXED_ONE as int) * frequency / (sample_rate * 1000)
}

impl OscillatorState {
    pub open spec fn span(self) -> int {
        self.table_size * (FIXED_ONE as int)
    }

    pub open spec fn wf(self) -> bool {
        &&& 0 < self.sample_rate <= SAMPLE_RATE_LIMIT
        &&& 0 <= self.frequency <= FREQ_LIMIT
        &&& 1 <= self.table_size <= TABLE_LEN_LIMIT
        &&& 0 <= self.table_position < self.span()
        &&& self.table_rate == rate_spec(
            self.table_size as int,
            self.frequency as int,
            self.sample_rate as int,
        )
    }
}

proof fn lemma_rate_spec_bounds(table_size: int, frequency: int, sample_rate: int)
    requires
        1 <= table_size <= TABLE_LEN_LIMIT,
        0 <= frequency <= FREQ_LIMIT,
        0 < sample_rate <= SAMPLE_RATE_LIMIT,
    ensures
        0 <= rate_spec(table_size, frequency, sample_rate) <= 0x10_0000_0000 * 100_000,
{
    let numerator = table_size * (FIXED_ONE as int) * frequency;
    assert(0 <= table_size * (FIXED_ONE as int) <= 0x10_0000_0000) by (nonlinear_arith)
        requires 1 <= table_size <= TABLE_LEN_LIMIT;
    assert(0 <= numerator <= 0x10_0000_0000 * 100_000_000) by (nonlinear_arith)
        requires
            0 <= table_size * (FIXED_ONE as int) <= 0x10_0000_0000,
            0 <= frequency <= 100_000_000,
            numerator == table_size * (FIXED_ONE as int) * frequency,
    ;
    assert(0 <= numerator / (sample_rate * 1000) <= numerator / 1000) by (nonlinear_arith)
        requires 0 <= numerator, 0 < sample_rate;
    assert(numerator / 1000 <= 0x10_0000_0000 * 100_000) by (nonlinear_arith)
        requires 0 <= numerator <= 0x10_0000_0000 * 100_000_000;
}

fn update_table_rate(state: &mut OscillatorState)
    requires
        0 < old(state).sample_rate <= SAMPLE_RATE_LIMIT,
        0 <= old(state).frequency <= FREQ_LIMIT,
        1 <= old(state).table_size <= TABLE_LEN_LIMIT,
    ensures
        *final(state) == (OscillatorState {
            table_rate: final(state).table_rate,
            ..*old(state)
        }),
        final(state).table_rate == rate_spec(
            old(state).table_size as int,
            old(state).frequency as int,
            old(state).sample_rate as int,
        ),
{
    proof {
        lemma_rate_spec_bounds(
            state.table_size as int,
            state.frequency as int,
            state.sample_rate as int,
        );
        assert((state.table_size as i64) * FIXED_ONE <= 0x10_0000_0000) by (nonlinear_arith)
            requires 1 <= state.table_size <= TABLE_LEN_LIMIT;
        assert(0 <= (state.table_size as i64) * FIXED_ONE * state.frequency <= 0x10_0000_0000
            * 100_000_000) by (nonlinear_arith)
            requires
                0 <= (state.table_size as i64) * FIXED_ONE <= 0x10_0000_0000,
                0 <= state.frequency <= 100_000_000,
        ;
    }
    state.table_rate = (state.table_size as i64) * FIXED_ONE * state.frequency / (state.sample_rate
        * 1000);
}

/// A wavetable oscillator: one sample per call, at the configured
/// frequency for the configured sample rate.
pub struct Oscillator {
    pub state: OscillatorState,
    pub wavetable: WaveTable,
}

/// The Q16 position reached from `position` after `n` advances of
/// `rate`, wrapping at `span`.
pub open spec fn position_after(position: int, rate: int, span: int, n: nat) -> int
    decreases n,
{
    if n == 0 {
        position
    } else {
        position_after((position + rate) % span, rate, span, (n - 1) as nat)
    }
}

/// Advancing a wrapping position `n` times lands on the sum of all
/// advances, wrapped once.
pub proof fn lemma_position_after_closed_form(position: int, rate: int, span: int, n: nat)
    requires
        0 < span,
        0 <= position < span,
        0 <= rate,
    ensures
        position_after(position, rate, span, n) == (position + n * rate) % span,
    decreases n,
{
    if n == 0 {
        assert(n * rate == 0) by (nonlinear_arith)
            requires n == 0;
        lemma_small_mod(position as nat, span as nat);
    } else {
        let stepped = (position + rate) % span;
        lemma_mod_bound(position + rate, span);
        lemma_position_after_closed_form(stepped, rate, span, (n - 1) as nat);
        let k = (n - 1) * rate;
        assert(0 <= k) by (nonlinear_arith)
            requires n >= 1, 0 <= rate, k == (n - 1) * rate;
        lemma_small_mod(stepped as nat, span as nat);
        lemma_add_mod_noop(stepped, k, span);
        lemma_add_mod_noop(position + rate, k, span);
        assert(position + rate + k == position + n * rate) by (nonlinear_arith)
            requires k == (n - 1) * rate;
    }
}

impl Oscillator {
    pub open spec fn wf(self) -> bool {
        &&& self.state.wf()
        &&& self.wavetable.wf()
        &&& self.state.table_size == self.wavetable.values@.len()
    }

    pub open spec fn span(self) -> int {
        self.state.span()
    }

    pub open spec fn position(self) -> int {
        self.state.table_position as int
    }

    pub open spec fn rate(self) -> int {
        self.state.table_rate as int
    }

    /// The sample the next call to `next_sample` will produce.
    pub open spec fn current_sample(self) -> int {
        table_interp(self.wavetable.values@, self.position())
    }

    /// This oscillator with its frequency changed to `frequency`
    /// millihertz (and its rate step recomputed accordingly).
    pub open spec fn with_frequency(self, frequency: int) -> Oscillator {
        Oscillator {
            state: OscillatorState {
                frequency: frequency as i64,
                table_rate: rate_spec(
                    self.state.table_size as int,
                    frequency,
                    self.state.sample_rate as int,
                ) as i64,
                ..self.state
            },
            ..self
        }
    }

    /// The oscillator as it stands after one `next_sample` call.
    pub open spec fn stepped(self) -> Oscillator {
        Oscillator {
            state: OscillatorState {
                table_position: ((self.position() + self.rate()) % self.span()) as i64,
                ..self.state
            },
            ..self
        }
    }

    /// The oscillator as it stands after `n` calls to `next_sample`.
    pub open spec fn stepped_n(self, n: nat) -> Oscillator
        decreases n,
    {
        if n == 0 {
            self
        } else {
            self.stepped().stepped_n((n - 1) as nat)
        }
    }

    /// A new oscillator over the given wavetable, initially at 440 Hz
    /// and the start of the table.
    pub fn new(wavetable: WaveTable, sample_rate: i64) -> (r: Oscillator)
        requires
            wavetable.wf(),
            0 < sample_rate <= SAMPLE_RATE_LIMIT,
        ensures
            r.wf(),
            r.state.frequency == 440_000,
            r.state.sample_rate == sample_rate,
            r.position() == 0,
            r.wavetable.values@ == wavetable.values@,
    {
        let table_size: usize = wavetable.values.len();
        let mut state = OscillatorState {
            frequency: 440_000,
            sample_rate,
            table_size,
            table_position: 0,
            table_rate: 0,
        };
        update_table_rate(&mut state);
        proof {
            assert(0 < state.span()) by (nonlinear_arith)
                requires 1 <= state.table_size;
        }
        Oscillator { state, wavetable }
    }

    pub fn get_frequency(&mut self) -> (r: i64)
        ensures
            *final(self) == *old(self),
            r == old(self).state.frequency,
    {
        self.state.frequency
    }

    /// Changes the frequency; it takes effect on the next sample.
    pub fn set_frequency(&mut self, frequency: i64)
        requires
            old(self).wf(),
            0 <= frequency <= FREQ_LIMIT,
        ensures
            final(self).wf(),
            *final(self) == old(self).with_frequency(frequency as int),
            final(self).rate() == rate_spec(
                old(self).state.table_size as int,
                frequency as int,
                old(self).state.sample_rate as int,
            ),
    {
        proof {
            lemma_rate_spec_bounds(
                self.state.table_size as int,
                frequency as int,
                self.state.sample_rate as int,
            );
        }
        self.state.frequency = frequency;
        update_table_rate(&mut self.state);
    }

    pub fn get_sample_rate(&mut self) -> (r: i64)
        ensures
            *final(self) == *old(self),
            r == old(self).state.sample_rate,
    {
        self.state.sample_rate
    }

    /// Changes the sample rate; it takes effect on the next sample.
    pub fn set_sample_rate(&mut self, sample_rate: i64)
        requires
            old(self).wf(),
            0 < sample_rate <= SAMPLE_RATE_LIMIT,
        ensures
            final(self).wf(),
            final(self).state.frequency == old(self).state.frequency,
            final(self).state.sample_rate == sample_rate,
            final(self).position() == old(self).position(),
            final(self).wavetable.values@ == old(self).wavetable.values@,
    {
        self.state.sample_rate = sample_rate;
        update_table_rate(&mut self.state);
    }

    /// Produces the sample at the current position, then advances the
    /// position by one rate step, wrapping at the end of the table.
    pub fn next_sample(&mut self) -> (r: i64)
        requires
            old(self).wf(),
        ensures
            final(self).wf(),
            r == old(self).current_sample(),
            -FIXED_ONE <= r <= FIXED_ONE,
            *final(self) == old(self).stepped(),
    {
        proof {
            assert(0 < self.span()) by (nonlinear_arith)
                requires 1 <= self.state.table_size;
            lemma_rate_spec_bounds(
                self.state.table_size as int,
                self.state.frequency as int,
                self.state.sample_rate as int,
            );
            lemma_mod_bound(self.position() + self.rate(), self.span());
        }
        let sample: i64 = self.wavetable.get_value(self.state.table_position);
        let span: i64 = (self.state.table_size as i64) * FIXED_ONE;
        self.state.table_position = (self.state.table_position + self.state.table_rate) % span;
        sample
    }
}

/// After `n` samples whose accumulated advance is a whole number of
/// table spans, an oscillator is back in exactly the state it started
/// in; the samples it produces therefore repeat with period `n`. For
/// a frequency `f` and sample rate `s` whose rate step divides the
/// span evenly, `n = s / f` satisfies this.
pub proof fn lemma_oscillator_periodic(o: Oscillator, n: nat)
    requires
        o.wf(),
        (n * o.rate()) % o.span() == 0,
    ensures
        o.stepped_n(n) == o,
{
    lemma_stepped_n_position(o, n);
    lemma_position_after_closed_form(o.position(), o.rate(), o.span(), n);
    assert(0 <= n * o.rate()) by (nonlinear_arith)
        requires 0 <= o.rate();
    lemma_add_mod_noop(o.position(), n * o.rate(), o.span());
    lemma_small_mod(o.position() as nat, o.span() as nat);
    assert((o.position() + n * o.rate()) % o.span() == o.position());
    assert(o.stepped_n(n).state == o.state);
}

/// Stepping `n` times only moves the position; frequency, sample
/// rate and wavetable stay fixed.
pub proof fn lemma_stepped_n_position(o: Oscillator, n: nat)
    requires
        o.wf(),
    ensures
        o.stepped_n(n) == (Oscillator {
            state: OscillatorState {
                table_position: position_after(o.position(), o.rate(), o.span(), n) as i64,
                ..o.state
            },
            ..o
        }),
    decreases n,
{
    assert(0 < o.span()) by (nonlinear_arith)
        requires 1 <= o.state.table_size;
    if n == 0 {
        assert(o.stepped_n(0) == o);
    } else {
        lemma_mod_bound(o.position() + o.rate(), o.span());
        assert(o.stepped().wf());
        lemma_stepped_n_position(o.stepped(), (n - 1) as nat);
    }
}

/// Stepping `a + b` times is stepping `a` times, then `b` times.
pub proof fn lemma_stepped_n_adds(o: Oscillator, a: nat, b: nat)
    ensures
        o.stepped_n(a + b) == o.stepped_n(a).stepped_n(b),
    decreases a,
{
    if a > 0 {
        lemma_stepped_n_adds(o.stepped(), (a - 1) as nat, b);
    }
}

/// Any two sample positions `n` apart yield the same sample when `n`
/// steps make up a whole number of table spans: the oscillator's
/// output is periodic with period `n`.
pub proof fn lemma_samples_periodic(o: Oscillator, n: nat, k: nat)
    requires
        o.wf(),
        (n * o.rate()) % o.span() == 0,
    ensures
        o.stepped_n(k + n).current_sample() == o.stepped_n(k).current_sample(),
{
    lemma_oscillator_periodic(o, n);
    lemma_stepped_n_adds(o, n, k);
}

} // verus!
