//! Bounding an endless oscillator to the length of one note.
use crate::melody::{on_spacing, spacings};
use crate::waves::{WaveGenerable, WaveModel};
use vstd::prelude::*;

verus! {

/// Samples a quantized note lasts: the sounding part of the note at the tempo,
/// but never more than `ceiling_ms` milliseconds.
pub open spec fn quantized_length(sample_rate: int, tempo: int, duration: int, ceiling_ms: int) -> int {
    let note = on_spacing(sample_rate, tempo) * duration;
    let ceiling = ceiling_ms * sample_rate / 1000;
    if note <= ceiling {
        note
    } else {
        ceiling
    }
}

/// An oscillator with a count of the samples it may still emit.
pub struct QuantizedModel {
    pub wave: WaveModel,
    pub remaining: nat,
}

impl QuantizedModel {
    /// One call: a sample of the oscillator while any remain, `None` after.
    pub open spec fn step(self) -> (QuantizedModel, Option<u16>) {
        if self.remaining == 0 {
            (self, None)
        } else {
            let (wave, sample) = self.wave.step();
            (QuantizedModel { wave, remaining: (self.remaining - 1) as nat }, Some(sample))
        }
    }

    /// The generator after `k` calls.
    pub open spec fn steps(self, k: nat) -> QuantizedModel
        decreases k,
    {
        if k == 0 {
            self
        } else {
            self.steps((k - 1) as nat).step().0
        }
    }

    /// How many of the first `k` calls return a sample.
    pub open spec fn emitted(self, k: nat) -> nat
        decreases k,
    {
        if k == 0 {
            0
        } else {
            self.emitted((k - 1) as nat) + if self.steps((k - 1) as nat).step().1 is Some {
                1nat
            } else {
                0nat
            }
        }
    }
}

/// A generator limited to `N` samples returns a sample on each of its first `N`
/// calls and `None` on every call after them, `N = 0` included.
pub proof fn lemma_quantizer_terminates(q: QuantizedModel, k: nat)
    ensures
        q.emitted(k) == if k <= q.remaining {
            k
        } else {
            q.remaining
        },
        q.steps(k).remaining == if k <= q.remaining {
            q.remaining - k
        } else {
            0
        },
        k >= q.remaining ==> q.steps(k).step().1 is None,
    decreases k,
{
    if k > 0 {
        lemma_quantizer_terminates(q, (k - 1) as nat);
    }
}

/// An oscillator that stops after a fixed number of samples.
pub struct Quantized {
    generator: WaveGenerable,
    remaining: u64,
}

impl View for Quantized {
    type V = QuantizedModel;

    closed spec fn view(&self) -> QuantizedModel {
        QuantizedModel { wave: self.generator@, remaining: self.remaining as nat }
    }
}

impl Quantized {
    /// `generator`, limited to `limit` samples.
    pub fn new(generator: WaveGenerable, limit: u64) -> (r: Self)
        ensures
            r@ == (QuantizedModel { wave: generator@, remaining: limit as nat }),
    {
        Quantized { generator, remaining: limit }
    }

    /// The next sample, or `None` once the limit is reached.
    pub fn next(&mut self) -> (r: Option<u16>)
        ensures
            (final(self)@, r) == old(self)@.step(),
    {
        if self.remaining == 0 {
            None
        } else {
            self.remaining = self.remaining - 1;
            Some(self.generator.next())
        }
    }

    /// How many samples are left.
    pub fn remaining(&self) -> (r: u64)
        ensures
            r == self@.remaining,
    {
        self.remaining
    }
}

impl WaveGenerable {
    /// This oscillator, limited to the length of a note of `duration` eighths at
    /// `tempo` and `sample_rate`, and to at most `ceiling_ms` milliseconds.
    pub fn quantize(self, sample_rate: u32, tempo: u8, duration: u8, ceiling_ms: u32) -> (r: Quantized)
        requires
            tempo > 0,
        ensures
            r@ == (QuantizedModel {
                wave: self@,
                remaining: quantized_length(
                    sample_rate as int,
                    tempo as int,
                    duration as int,
                    ceiling_ms as int,
                ) as nat,
            }),
    {
        let (on, _) = spacings(sample_rate, tempo);
        assert(on * duration <= 30 * u32::MAX * 255) by (nonlinear_arith)
            requires
                on <= 30 * u32::MAX,
                duration <= 255,
        ;
        assert(ceiling_ms * sample_rate <= u32::MAX * u32::MAX) by (nonlinear_arith)
            requires
                ceiling_ms <= u32::MAX,
                sample_rate <= u32::MAX,
        ;
        let note = on * duration as u64;
        let ceiling = ceiling_ms as u64 * sample_rate as u64 / 1000;
        let limit = if note <= ceiling {
            note
        } else {
            ceiling
        };
        Quantized::new(self, limit)
    }
}

} // verus!
