//! Sample synthesis: sine-wave tones, single cycles, half cycles and silence.
//!
//! A [`Waveform`] holds the output configuration: the sample rate and one
//! period of the carrier wave, sampled at `rate` evenly spaced points and
//! scaled to at most three quarters of the positive 8-bit range. Sample `i`
//! of a tone at `freq` hertz is the table entry at phase `(freq * i) % rate`,
//! so every synthesis call restarts the phase at zero. Computing the table
//! itself (with `sin`) is the caller's concern; the constructor checks the
//! amplitude bound, and everything downstream is proved against it.

use vstd::arithmetic::div_mod::{
    lemma_add_mod_noop, lemma_add_mod_noop_right, lemma_mod_division_less_than_divisor,
    lemma_small_mod,
};
use vstd::prelude::*;

verus! {

/// Smallest amplitude a table entry may hold.
pub const MIN_SAMPLE: i8 = -96;

/// Largest amplitude a table entry may hold.
pub const MAX_SAMPLE: i8 = 96;

/// Every value of the sequence lies within the permitted amplitude range.
pub open spec fn all_in_range(s: Seq<i8>) -> bool {
    forall|i: int| 0 <= i < s.len() ==> MIN_SAMPLE <= #[trigger] s[i] <= MAX_SAMPLE
}

/// Why a waveform configuration was rejected.
#[derive(Clone, Copy, Debug, PartialEq, Eq, Structural)]
pub enum WaveformError {
    /// The sample rate was zero.
    RateZero,
    /// The table does not hold exactly one entry per phase step.
    TableLengthMismatch,
    /// A table entry lies outside the permitted amplitude range.
    SampleOutOfRange,
}

/// The output configuration: sample rate plus one period of the carrier wave.
pub struct Waveform {
    rate: u32,
    table: Vec<i8>,
}

impl Waveform {
    /// Samples per second.
    pub closed spec fn rate(&self) -> nat {
        self.rate as nat
    }

    /// One period of the carrier wave, one entry per phase step.
    pub closed spec fn table(&self) -> Seq<i8> {
        self.table@
    }

    /// A usable configuration: positive rate, a full period in the table,
    /// every entry within the amplitude bound.
    pub open spec fn wf(&self) -> bool {
        &&& self.rate() >= 1
        &&& self.table().len() == self.rate()
        &&& all_in_range(self.table())
    }

    /// Checks a configuration and keeps it only when it is usable.
    pub fn new(rate: u32, table: Vec<i8>) -> (r: Result<Waveform, WaveformError>)
        ensures
            r is Ok <==> (rate >= 1 && table@.len() == rate as nat && all_in_range(table@)),
            r is Ok ==> (r->Ok_0.rate() == rate as nat && r->Ok_0.table() == table@
                && r->Ok_0.wf()),
            rate == 0 ==> (r matches Err(WaveformError::RateZero)),
            (rate >= 1 && table@.len() != rate as nat) ==> (r matches Err(
                WaveformError::TableLengthMismatch,
            )),
            (rate >= 1 && table@.len() == rate as nat && !all_in_range(table@)) ==> (r matches Err(
                WaveformError::SampleOutOfRange,
            )),
    {
        if rate == 0 {
            return Err(WaveformError::RateZero);
        }
        if table.len() != rate as usize {
            return Err(WaveformError::TableLengthMismatch);
        }
        let mut i: usize = 0;
        while i < table.len()
            invariant
                rate >= 1,
                table@.len() == rate as nat,
                i <= table@.len(),
                forall|j: int| 0 <= j < i ==> MIN_SAMPLE <= #[trigger] table@[j] <= MAX_SAMPLE,
            decreases table@.len() - i,
        {
            let v = table[i];
            if v < MIN_SAMPLE || v > MAX_SAMPLE {
                return Err(WaveformError::SampleOutOfRange);
            }
            i = i + 1;
        }
        Ok(Waveform { rate, table })
    }

    /// Samples per second.
    pub fn sample_rate(&self) -> (r: u32)
        ensures
            r as nat == self.rate(),
    {
        self.rate
    }
}

/// The table entry negated; inversion happens before truncation, so for
/// amplitudes within the permitted range this is plain negation.
pub open spec fn negated(v: i8) -> i8 {
    (0 - v as int) as i8
}

/// Sample `i` of a sine wave at `freq` hertz: the table entry at phase
/// `(freq * i) % rate`, negated when the wave is inverted.
pub open spec fn wave_sample(w: Waveform, freq: nat, i: nat, invert: bool) -> i8 {
    let v = w.table()[((freq * i) % w.rate()) as int];
    if invert {
        negated(v)
    } else {
        v
    }
}

/// The first `n` samples of a sine wave at `freq` hertz, phase starting at
/// zero.
pub open spec fn wave(w: Waveform, freq: nat, n: nat, invert: bool) -> Seq<i8> {
    Seq::new(n, |i: int| wave_sample(w, freq, i as nat, invert))
}

/// How many samples a tone of `ms` milliseconds holds: the whole sample
/// periods that fit in the duration.
pub open spec fn tone_len(w: Waveform, ms: nat) -> nat {
    (ms * w.rate()) / 1000
}

/// How many samples one full cycle at `freq` hertz holds.
pub open spec fn cycle_len(w: Waveform, freq: nat) -> nat {
    w.rate() / freq
}

/// How many samples one half cycle at `freq` hertz holds.
pub open spec fn half_cycle_len(w: Waveform, freq: nat) -> nat {
    w.rate() / freq / 2
}

/// The samples of a silence of `ms` milliseconds: zeroes, as many as a tone
/// of the same duration would hold.
pub open spec fn silence_samples(w: Waveform, ms: nat) -> Seq<i8> {
    Seq::new(tone_len(w, ms), |i: int| 0i8)
}

/// Emits `n` samples of a sine wave at `freq` hertz, phase starting at zero.
fn sine_wave(w: &Waveform, freq: u32, n: usize, invert: bool, out: &mut Vec<i8>)
    requires
        w.wf(),
        freq >= 1,
    ensures
        final(out)@ == old(out)@ + wave(*w, freq as nat, n as nat, invert),
{
    let mut i: usize = 0;
    let mut phase: u64 = 0;
    proof {
        lemma_small_mod(0nat, w.rate());
        assert(freq as int * 0 == 0) by (nonlinear_arith);
    }
    while i < n
        invariant
            w.wf(),
            freq >= 1,
            i <= n,
            phase == (freq as int * i as int) % (w.rate() as int),
            out@ == old(out)@ + wave(*w, freq as nat, i as nat, invert),
        decreases n - i,
    {
        proof {
            lemma_mod_division_less_than_divisor(freq as int * i as int, w.rate() as int);
        }
        let v = w.table[phase as usize];
        let s: i8 = if invert {
            -v
        } else {
            v
        };
        out.push(s);
        proof {
            assert(wave(*w, freq as nat, i as nat + 1, invert) =~= wave(
                *w,
                freq as nat,
                i as nat,
                invert,
            ).push(s));
            let r = w.rate() as int;
            let f = freq as int;
            lemma_add_mod_noop(f * i as int, f, r);
            lemma_add_mod_noop_right((f * i as int) % r, f, r);
            assert(f * (i as int + 1) == f * i as int + f) by (nonlinear_arith);
        }
        phase = (phase + freq as u64) % (w.rate as u64);
        i = i + 1;
    }
}

/// A continuous non-inverted sine wave at `freq` hertz for `ms` milliseconds.
pub fn tone(w: &Waveform, freq: u32, ms: u64, out: &mut Vec<i8>)
    requires
        w.wf(),
        freq >= 1,
        ms as nat * w.rate() <= usize::MAX as nat,
    ensures
        final(out)@ == old(out)@ + wave(*w, freq as nat, tone_len(*w, ms as nat), false),
        final(out)@.len() == old(out)@.len() + tone_len(*w, ms as nat),
{
    let n = (ms * w.rate as u64 / 1000) as usize;
    sine_wave(w, freq, n, false, out);
}

/// Exactly one period of a sine wave at `freq` hertz.
pub fn cycle(w: &Waveform, freq: u32, out: &mut Vec<i8>)
    requires
        w.wf(),
        freq >= 1,
    ensures
        final(out)@ == old(out)@ + wave(*w, freq as nat, cycle_len(*w, freq as nat), false),
        final(out)@.len() == old(out)@.len() + cycle_len(*w, freq as nat),
{
    let n = (w.rate / freq) as usize;
    sine_wave(w, freq, n, false, out);
}

/// Which half of a cycle to emit: `High` keeps the wave as it is, `Low`
/// negates every sample.
pub enum HalfCycle {
    High,
    Low,
}

/// Half of one period of a sine wave at `freq` hertz, negated for the low
/// half.
pub fn half_cycle(w: &Waveform, freq: u32, half: HalfCycle, out: &mut Vec<i8>)
    requires
        w.wf(),
        freq >= 1,
    ensures
        final(out)@ == old(out)@ + wave(
            *w,
            freq as nat,
            half_cycle_len(*w, freq as nat),
            half is Low,
        ),
        final(out)@.len() == old(out)@.len() + half_cycle_len(*w, freq as nat),
{
    let invert = matches!(half, HalfCycle::Low);
    let n = (w.rate / freq / 2) as usize;
    sine_wave(w, freq, n, invert, out);
}

/// Zero-valued samples for `ms` milliseconds.
pub fn silence(w: &Waveform, ms: u64, out: &mut Vec<i8>)
    requires
        w.wf(),
        ms as nat * w.rate() <= usize::MAX as nat,
    ensures
        final(out)@ == old(out)@ + silence_samples(*w, ms as nat),
        final(out)@.len() == old(out)@.len() + tone_len(*w, ms as nat),
{
    let n = (ms * w.rate as u64 / 1000) as usize;
    let mut i: usize = 0;
    while i < n
        invariant
            i <= n,
            out@ == old(out)@ + Seq::new(i as nat, |j: int| 0i8),
        decreases n - i,
    {
        out.push(0i8);
        proof {
            assert(Seq::new(i as nat + 1, |j: int| 0i8) =~= Seq::new(i as nat, |j: int| 0i8).push(
                0i8,
            ));
        }
        i = i + 1;
    }
    proof {
        assert(Seq::new(n as nat, |j: int| 0i8) =~= silence_samples(*w, ms as nat));
    }
}

/// Every sample a wave emits comes from the table (possibly negated), so it
/// stays within the permitted amplitude range.
pub proof fn lemma_wave_in_range(w: Waveform, freq: nat, n: nat, invert: bool)
    requires
        w.wf(),
    ensures
        all_in_range(wave(w, freq, n, invert)),
{
    assert forall|i: int| 0 <= i < wave(w, freq, n, invert).len() implies MIN_SAMPLE <= #[trigger] wave(
        w,
        freq,
        n,
        invert,
    )[i] <= MAX_SAMPLE by {
        lemma_mod_division_less_than_divisor(freq as int * i, w.rate() as int);
    }
}

/// Silence stays within the permitted amplitude range.
pub proof fn lemma_silence_in_range(w: Waveform, ms: nat)
    ensures
        all_in_range(silence_samples(w, ms)),
{
}

/// Samples within range stay within range under concatenation.
pub proof fn lemma_concat_in_range(a: Seq<i8>, b: Seq<i8>)
    requires
        all_in_range(a),
        all_in_range(b),
    ensures
        all_in_range(a + b),
{
    assert forall|i: int| 0 <= i < (a + b).len() implies MIN_SAMPLE <= #[trigger] (a + b)[i]
        <= MAX_SAMPLE by {
        if i < a.len() {
            assert((a + b)[i] == a[i]);
        } else {
            assert((a + b)[i] == b[i - a.len()]);
        }
    }
}

} // verus!
