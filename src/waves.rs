//! Phase-accumulator oscillators.
use vstd::arithmetic::div_mod::{lemma_add_mod_noop, lemma_mod_twice};
use vstd::prelude::*;

verus! {

/// Bottom half of the phase range maps to a low square output, top half to a high one.
pub const HALF_RANGE: u16 = 0x8000;

/// The zero-crossing value of a raw (unsigned) sample: envelopes scale about
/// it, and signed output is centred on it.
pub const MID_SCALE: u16 = 0x8000;

/// High level of the square wave.
pub const SQUARE_HIGH: u16 = 65534;

/// Output of the silence oscillator: the middle of the raw range, rounded down.
pub const SILENCE_LEVEL: u16 = 0x7FFF;

/// Phase increment per sample for a tone of `frequency` Hz at `sample_frequency`
/// samples per second: `frequency * 2^16 / sample_frequency`, truncated to 16 bits.
pub open spec fn advancement_for(sample_frequency: int, frequency: int) -> int {
    (frequency * 0x10000 / sample_frequency) % 0x10000
}

/// Square output for a phase: low in the bottom half of the range, high in the top half.
pub open spec fn square_level(position: int) -> u16 {
    if position < HALF_RANGE {
        0
    } else {
        SQUARE_HIGH
    }
}

/// State of a phase accumulator.
pub struct PhaseModel {
    pub position: int,
    pub advancement: int,
}

impl PhaseModel {
    /// The accumulator after one sample: the phase moves by `advancement`,
    /// wrapping around at `2^16`.
    pub open spec fn advanced(self) -> PhaseModel {
        PhaseModel {
            position: (self.position + self.advancement) % 0x10000,
            advancement: self.advancement,
        }
    }

    /// The accumulator after `k` samples.
    pub open spec fn advanced_by(self, k: nat) -> PhaseModel
        decreases k,
    {
        if k == 0 {
            self
        } else {
            self.advanced_by((k - 1) as nat).advanced()
        }
    }
}

/// Starting from phase zero, after `k` samples with advancement `a` the phase is
/// `a * k` modulo `2^16`, however far `a * k` has grown past the range.
pub proof fn lemma_phase_wraparound(a: int, k: nat)
    ensures
        (PhaseModel { position: 0, advancement: a }).advanced_by(k).position == (a * k) % 0x10000,
        (PhaseModel { position: 0, advancement: a }).advanced_by(k).advancement == a,
    decreases k,
{
    if k > 0 {
        lemma_phase_wraparound(a, (k - 1) as nat);
        let before = a * (k - 1);
        assert(before + a == a * k) by (nonlinear_arith)
            requires
                before == a * (k - 1),
        ;
        lemma_add_mod_noop(before, a, 0x10000);
        lemma_mod_twice(before, 0x10000);
        lemma_add_mod_noop(before % 0x10000, a, 0x10000);
    }
}

/// Adds `advancement` to `position`, wrapping around at `2^16`.
fn advance_phase(position: u16, advancement: u16) -> (r: u16)
    ensures
        r == (position + advancement) % 0x10000,
{
    position.wrapping_add(advancement)
}

/// Computes `advancement_for(sample_frequency, frequency)`.
fn advancement_of(sample_frequency: usize, frequency: usize) -> (r: u16)
    requires
        sample_frequency > 0,
    ensures
        r == advancement_for(sample_frequency as int, frequency as int),
{
    let scaled: u128 = (frequency as u128) * 0x10000;
    let steps: u128 = scaled / (sample_frequency as u128);
    (steps % 0x10000) as u16
}

/// Square wave: low while the phase is in the bottom half of its range, high in the top half.
pub struct SquareWaveGenerator {
    current_position: u16,
    advancement: u16,
}

impl View for SquareWaveGenerator {
    type V = PhaseModel;

    closed spec fn view(&self) -> PhaseModel {
        PhaseModel { position: self.current_position as int, advancement: self.advancement as int }
    }
}

impl SquareWaveGenerator {
    /// A square wave of `frequency` Hz at `sample_frequency` samples per second, at phase zero.
    pub fn new(sample_frequency: usize, frequency: usize) -> (r: Self)
        requires
            sample_frequency > 0,
        ensures
            r@ == (PhaseModel {
                position: 0,
                advancement: advancement_for(sample_frequency as int, frequency as int),
            }),
    {
        SquareWaveGenerator {
            current_position: 0,
            advancement: advancement_of(sample_frequency, frequency),
        }
    }

    /// Advances the phase by one sample and returns the level at the new phase.
    pub fn next(&mut self) -> (r: u16)
        ensures
            final(self)@ == old(self)@.advanced(),
            r == square_level(final(self)@.position),
    {
        self.current_position = advance_phase(self.current_position, self.advancement);
        if self.current_position < HALF_RANGE {
            0
        } else {
            SQUARE_HIGH
        }
    }

    /// The current phase.
    pub fn position(&self) -> (r: u16)
        ensures
            r == self@.position,
    {
        self.current_position
    }

    /// The phase increment per sample.
    pub fn advancement(&self) -> (r: u16)
        ensures
            r == self@.advancement,
    {
        self.advancement
    }
}

/// Sawtooth wave: the output is the phase itself, a linear ramp over the full range.
pub struct SawtoothWaveGenerator {
    current_position: u16,
    advancement: u16,
}

impl View for SawtoothWaveGenerator {
    type V = PhaseModel;

    closed spec fn view(&self) -> PhaseModel {
        PhaseModel { position: self.current_position as int, advancement: self.advancement as int }
    }
}

impl SawtoothWaveGenerator {
    /// A sawtooth wave of `frequency` Hz at `sample_frequency` samples per second, at phase zero.
    pub fn new(sample_frequency: usize, frequency: usize) -> (r: Self)
        requires
            sample_frequency > 0,
        ensures
            r@ == (PhaseModel {
                position: 0,
                advancement: advancement_for(sample_frequency as int, frequency as int),
            }),
    {
        SawtoothWaveGenerator {
            current_position: 0,
            advancement: advancement_of(sample_frequency, frequency),
        }
    }

    /// Advances the phase by one sample and returns the new phase.
    pub fn next(&mut self) -> (r: u16)
        ensures
            final(self)@ == old(self)@.advanced(),
            r == final(self)@.position,
    {
        self.current_position = advance_phase(self.current_position, self.advancement);
        self.current_position
    }

    /// The current phase.
    pub fn position(&self) -> (r: u16)
        ensures
            r == self@.position,
    {
        self.current_position
    }

    /// The phase increment per sample.
    pub fn advancement(&self) -> (r: u16)
        ensures
            r == self@.advancement,
    {
        self.advancement
    }
}

/// An oscillator of one of the available shapes.
pub enum WaveGenerable {
    Square(SquareWaveGenerator),
    Sawtooth(SawtoothWaveGenerator),
    /// Always the middle of the raw range.
    Silence,
}

/// State of an oscillator of one of the available shapes.
pub enum WaveModel {
    Square(PhaseModel),
    Sawtooth(PhaseModel),
    Silence,
}

impl WaveModel {
    /// The oscillator after one sample.
    pub open spec fn advanced(self) -> WaveModel {
        match self {
            WaveModel::Square(p) => WaveModel::Square(p.advanced()),
            WaveModel::Sawtooth(p) => WaveModel::Sawtooth(p.advanced()),
            WaveModel::Silence => WaveModel::Silence,
        }
    }

    /// The raw sample an oscillator in this state outputs.
    pub open spec fn level(self) -> u16 {
        match self {
            WaveModel::Square(p) => square_level(p.position),
            WaveModel::Sawtooth(p) => p.position as u16,
            WaveModel::Silence => SILENCE_LEVEL,
        }
    }

    /// One sample: the oscillator advances, then outputs the level of its new state.
    pub open spec fn step(self) -> (WaveModel, u16) {
        (self.advanced(), self.advanced().level())
    }
}

impl View for WaveGenerable {
    type V = WaveModel;

    open spec fn view(&self) -> WaveModel {
        match self {
            WaveGenerable::Square(g) => WaveModel::Square(g@),
            WaveGenerable::Sawtooth(g) => WaveModel::Sawtooth(g@),
            WaveGenerable::Silence => WaveModel::Silence,
        }
    }
}

impl WaveGenerable {
    /// Produces the next raw sample.
    pub fn next(&mut self) -> (r: u16)
        ensures
            (final(self)@, r) == old(self)@.step(),
    {
        match self {
            WaveGenerable::Square(square) => square.next(),
            WaveGenerable::Sawtooth(sawtooth) => sawtooth.next(),
            WaveGenerable::Silence => SILENCE_LEVEL,
        }
    }
}

/// One raw sample of white noise from two random bytes: the first is the high byte.
pub fn noise_sample(high: u8, low: u8) -> (r: u16)
    ensures
        r == high * 256 + low,
{
    (high as u16) * 256 + low as u16
}

} // verus!
