//! ADSR amplitude envelopes over quantized notes.
use crate::quantize::{Quantized, QuantizedModel};
use crate::waves::MID_SCALE;
use vstd::prelude::*;

verus! {

/// Full amplitude.
pub const FULL_LEVEL: u64 = 255;

/// Samples in a phase of `ms` milliseconds at `sample_rate`.
pub open spec fn phase_samples(ms: int, sample_rate: int) -> int {
    ms * sample_rate / 1000
}

/// Attack, decay and release lengths fitted to a note of `length` samples. The
/// release lasts at least one sample. When the three do not fit, attack and
/// decay shrink in proportion and the release takes the rest, so that the
/// phases end exactly with the note.
pub open spec fn fitted_phases(attack: int, decay: int, release: int, length: int) -> (int, int, int) {
    let release = if release < 1 {
        1
    } else {
        release
    };
    let total = attack + decay + release;
    if length >= total {
        (attack, decay, release)
    } else {
        let attack = attack * length / total;
        let decay = decay * length / total;
        (attack, decay, length - attack - decay)
    }
}

/// A raw sample scaled about the zero-crossing value by `level / 255`.
pub open spec fn shaped(raw: u16, level: int) -> u16 {
    if raw >= MID_SCALE {
        (MID_SCALE + (raw - MID_SCALE) * level / 255) as u16
    } else {
        (MID_SCALE - (MID_SCALE - raw) * level / 255) as u16
    }
}

/// A quantized oscillator under an envelope, with the envelope's phase lengths
/// in samples, its sustain level, the note's length and how far it has played.
pub struct EnvelopeModel {
    pub inner: QuantizedModel,
    pub attack: int,
    pub decay: int,
    pub release: int,
    pub sustain: int,
    pub length: int,
    pub position: int,
}

impl EnvelopeModel {
    /// An envelope with the given parameters, phase lengths in milliseconds,
    /// over `inner`, at its start.
    pub open spec fn initial(
        inner: QuantizedModel,
        sample_rate: int,
        attack: int,
        decay: int,
        sustain: int,
        release: int,
    ) -> EnvelopeModel {
        let length = inner.remaining as int;
        let (a, d, r) = fitted_phases(
            phase_samples(attack, sample_rate),
            phase_samples(decay, sample_rate),
            phase_samples(release, sample_rate),
            length,
        );
        EnvelopeModel {
            inner,
            attack: a,
            decay: d,
            release: r,
            sustain,
            length,
            position: 0,
        }
    }

    /// Amplitude, out of 255, at sample `j` of the note: a rise from zero over
    /// the attack, a fall to the sustain level over the decay, the sustain
    /// level, and a fall to zero at the last sample over the release.
    pub open spec fn level_at(self, j: int) -> int {
        if j < self.attack {
            255 * j / self.attack
        } else if j < self.attack + self.decay {
            255 - (255 - self.sustain) * (j - self.attack) / self.decay
        } else if j < self.length - self.release {
            self.sustain
        } else {
            self.sustain * (self.length - 1 - j) / self.release
        }
    }

    /// One call: the next sample of the inner generator, scaled by the
    /// envelope, or `None` once the inner generator is exhausted.
    pub open spec fn step(self) -> (EnvelopeModel, Option<u16>) {
        let (inner, sample) = self.inner.step();
        match sample {
            Some(raw) => (
                EnvelopeModel { inner, position: self.position + 1, ..self },
                Some(shaped(raw, self.level_at(self.position))),
            ),
            None => (EnvelopeModel { inner, ..self }, None),
        }
    }

    /// The envelope after `k` calls.
    pub open spec fn steps(self, k: nat) -> EnvelopeModel
        decreases k,
    {
        if k == 0 {
            self
        } else {
            self.steps((k - 1) as nat).step().0
        }
    }

    /// Phase lengths that fit the note, and a sustain level within range.
    pub open spec fn phases_fit(self) -> bool {
        &&& 0 <= self.attack
        &&& 0 <= self.decay
        &&& 0 <= self.release
        &&& self.attack + self.decay + self.release <= self.length
        &&& self.length > 0 ==> self.release >= 1
        &&& 0 <= self.sustain <= 255
    }
}

/// Over a note of any positive length and with any parameters, the envelope's
/// level at the last sample is zero, so no more than where the release starts,
/// and that sample comes out as the zero-crossing value; every level lies
/// between zero and full.
pub proof fn lemma_envelope_bounded(
    inner: QuantizedModel,
    sample_rate: int,
    attack: int,
    decay: int,
    sustain: int,
    release: int,
    raw: u16,
)
    requires
        0 <= sample_rate,
        0 <= attack,
        0 <= decay,
        0 <= release,
        0 <= sustain <= 255,
        inner.remaining > 0,
    ensures
        ({
            let e = EnvelopeModel::initial(inner, sample_rate, attack, decay, sustain, release);
            &&& e.length == inner.remaining
            &&& e.level_at(e.length - 1) == 0
            &&& e.level_at(e.length - 1) <= e.level_at(e.length - e.release)
            &&& shaped(raw, e.level_at(e.length - 1)) == MID_SCALE
            &&& forall|j: int| 0 <= j < e.length ==> 0 <= #[trigger] e.level_at(j) <= 255
        }),
{
    let e = EnvelopeModel::initial(inner, sample_rate, attack, decay, sustain, release);
    lemma_initial_fits(inner, sample_rate, attack, decay, sustain, release);
    lemma_level_bounds(e, e.length - e.release);
    assert forall|j: int| 0 <= j < e.length implies 0 <= #[trigger] e.level_at(j) <= 255 by {
        lemma_level_bounds(e, j);
    }
}

/// The envelope returns a sample on exactly the calls on which its inner
/// generator does, so it never outlasts the note.
pub proof fn lemma_envelope_follows_inner(e: EnvelopeModel, k: nat)
    ensures
        e.steps(k).inner == e.inner.steps(k),
        (e.steps(k).step().1 is None) == (e.inner.steps(k).step().1 is None),
    decreases k,
{
    if k > 0 {
        lemma_envelope_follows_inner(e, (k - 1) as nat);
    }
}

proof fn lemma_initial_fits(
    inner: QuantizedModel,
    sample_rate: int,
    attack: int,
    decay: int,
    sustain: int,
    release: int,
)
    requires
        0 <= sample_rate,
        0 <= attack,
        0 <= decay,
        0 <= release,
        0 <= sustain <= 255,
    ensures
        EnvelopeModel::initial(inner, sample_rate, attack, decay, sustain, release).phases_fit(),
{
    assert(phase_samples(attack, sample_rate) >= 0 && phase_samples(decay, sample_rate) >= 0
        && phase_samples(release, sample_rate) >= 0) by {
        vstd::arithmetic::div_mod::lemma_div_pos_is_pos(attack * sample_rate, 1000);
        vstd::arithmetic::div_mod::lemma_div_pos_is_pos(decay * sample_rate, 1000);
        vstd::arithmetic::div_mod::lemma_div_pos_is_pos(release * sample_rate, 1000);
        vstd::arithmetic::mul::lemma_mul_nonnegative(attack, sample_rate);
        vstd::arithmetic::mul::lemma_mul_nonnegative(decay, sample_rate);
        vstd::arithmetic::mul::lemma_mul_nonnegative(release, sample_rate);
    }
    lemma_fitted_phases(
        phase_samples(attack, sample_rate),
        phase_samples(decay, sample_rate),
        phase_samples(release, sample_rate),
        inner.remaining as int,
    );
}

/// Samples in a phase of `ms` milliseconds at `sample_rate`.
fn phase_length(ms: u8, sample_rate: u32) -> (r: u64)
    ensures
        r == phase_samples(ms as int, sample_rate as int),
{
    assert(ms * sample_rate <= 255 * u32::MAX) by (nonlinear_arith)
        requires
            ms <= 255,
            sample_rate <= u32::MAX,
    ;
    ms as u64 * sample_rate as u64 / 1000
}

/// Computes `fitted_phases(attack, decay, release, length)`.
fn fit_phases(attack: u64, decay: u64, release: u64, length: u64) -> (r: (u64, u64, u64))
    ensures
        (r.0 as int, r.1 as int, r.2 as int) == fitted_phases(
            attack as int,
            decay as int,
            release as int,
            length as int,
        ),
{
    proof {
        lemma_fitted_phases(attack as int, decay as int, release as int, length as int);
    }
    let release = if release < 1 {
        1
    } else {
        release
    };
    let total: u128 = attack as u128 + decay as u128 + release as u128;
    if length as u128 >= total {
        (attack, decay, release)
    } else {
        assert(attack * length <= u64::MAX * u64::MAX) by (nonlinear_arith)
            requires
                attack <= u64::MAX,
                length <= u64::MAX,
        ;
        assert(decay * length <= u64::MAX * u64::MAX) by (nonlinear_arith)
            requires
                decay <= u64::MAX,
                length <= u64::MAX,
        ;
        let a = (attack as u128 * length as u128 / total) as u64;
        let d = (decay as u128 * length as u128 / total) as u64;
        (a, d, length - a - d)
    }
}

/// Computes `shaped(raw, level)`.
fn shape(raw: u16, level: u64) -> (r: u16)
    requires
        level <= 255,
    ensures
        r == shaped(raw, level as int),
{
    if raw >= MID_SCALE {
        let x = (raw - MID_SCALE) as u64;
        proof {
            lemma_scale_down(x as int, level as int);
        }
        MID_SCALE + (x * level / 255) as u16
    } else {
        let x = (MID_SCALE - raw) as u64;
        proof {
            lemma_scale_down(x as int, level as int);
        }
        MID_SCALE - (x * level / 255) as u16
    }
}

proof fn lemma_scale_down(x: int, level: int)
    requires
        0 <= x,
        0 <= level <= 255,
    ensures
        0 <= x * level / 255 <= x,
        x * level <= x * 255,
{
    assert(x * level <= x * 255) by (nonlinear_arith)
        requires
            0 <= x,
            level <= 255,
    ;
    assert(0 <= x * level) by (nonlinear_arith)
        requires
            0 <= x,
            0 <= level,
    ;
    vstd::arithmetic::div_mod::lemma_div_is_ordered(x * level, x * 255, 255);
    vstd::arithmetic::div_mod::lemma_div_multiples_vanish(x, 255);
    vstd::arithmetic::div_mod::lemma_div_pos_is_pos(x * level, 255);
}

/// A quantized oscillator under an ADSR envelope.
pub struct Enveloped {
    inner: Quantized,
    attack: u64,
    decay: u64,
    release: u64,
    sustain: u64,
    length: u64,
    position: u64,
}

impl View for Enveloped {
    type V = EnvelopeModel;

    closed spec fn view(&self) -> EnvelopeModel {
        EnvelopeModel {
            inner: self.inner@,
            attack: self.attack as int,
            decay: self.decay as int,
            release: self.release as int,
            sustain: self.sustain as int,
            length: self.length as int,
            position: self.position as int,
        }
    }
}

impl Enveloped {
    /// Phase lengths fit the note, and the samples played plus the samples left
    /// make up the note.
    pub open spec fn wf(&self) -> bool {
        &&& self@.phases_fit()
        &&& self@.position + self@.inner.remaining == self@.length
    }

    /// The amplitude at sample `j` of the note.
    fn level_at(&self, j: u64) -> (r: u64)
        requires
            self@.phases_fit(),
            j < self.length,
        ensures
            r == self@.level_at(j as int),
            r <= 255,
    {
        proof {
            lemma_level_bounds(self@, j as int);
        }
        if j < self.attack {
            (255 * j as u128 / self.attack as u128) as u64
        } else if j < self.attack + self.decay {
            assert((255 - self.sustain) * (j - self.attack) <= 255 * u64::MAX) by (nonlinear_arith)
                requires
                    self.sustain <= 255,
                    j - self.attack <= u64::MAX,
                    j >= self.attack,
            ;
            255 - ((255 - self.sustain) as u128 * (j - self.attack) as u128 / self.decay as u128) as u64
        } else if j < self.length - self.release {
            self.sustain
        } else {
            assert(self.sustain * (self.length - 1 - j) <= 255 * u64::MAX) by (nonlinear_arith)
                requires
                    self.sustain <= 255,
                    self.length - 1 - j <= u64::MAX,
                    self.length - 1 - j >= 0,
            ;
            (self.sustain as u128 * (self.length - 1 - j) as u128 / self.release as u128) as u64
        }
    }

    /// The next sample of the inner generator, scaled by the envelope, or
    /// `None` once the inner generator is exhausted.
    pub fn next(&mut self) -> (r: Option<u16>)
        requires
            old(self).wf(),
        ensures
            final(self).wf(),
            (final(self)@, r) == old(self)@.step(),
    {
        if self.position < self.length {
            let level = self.level_at(self.position);
            let sample = self.inner.next();
            match sample {
                Some(raw) => {
                    self.position = self.position + 1;
                    Some(shape(raw, level))
                },
                None => None,
            }
        } else {
            self.inner.next()
        }
    }
}

impl Quantized {
    /// This generator under an ADSR envelope: attack, decay and release in
    /// milliseconds at `sample_rate`, sustain as a level out of 255.
    pub fn envelope(self, sample_rate: u32, attack: u8, decay: u8, sustain: u8, release: u8) -> (r: Enveloped)
        ensures
            r.wf(),
            r@ == EnvelopeModel::initial(
                self@,
                sample_rate as int,
                attack as int,
                decay as int,
                sustain as int,
                release as int,
            ),
    {
        proof {
            lemma_initial_fits(self@, sample_rate as int, attack as int, decay as int, sustain as int, release as int);
        }
        let length = self.remaining();
        let (a, d, r) = fit_phases(
            phase_length(attack, sample_rate),
            phase_length(decay, sample_rate),
            phase_length(release, sample_rate),
            length,
        );
        Enveloped {
            inner: self,
            attack: a,
            decay: d,
            release: r,
            sustain: sustain as u64,
            length,
            position: 0,
        }
    }
}

proof fn lemma_fitted_phases(attack: int, decay: int, release: int, length: int)
    requires
        attack >= 0,
        decay >= 0,
        release >= 0,
        length >= 0,
    ensures
        ({
            let (a, d, r) = fitted_phases(attack, decay, release, length);
            &&& a >= 0 && d >= 0 && r >= 0
            &&& a + d + r <= length
            &&& a <= attack && d <= decay
            &&& length > 0 ==> r >= 1
        }),
{
    let r1 = if release < 1 {
        1
    } else {
        release
    };
    let total = attack + decay + r1;
    if length < total {
        let a = attack * length / total;
        let d = decay * length / total;
        assert(a * total <= attack * length) by {
            vstd::arithmetic::div_mod::lemma_fundamental_div_mod(attack * length, total);
            vstd::arithmetic::div_mod::lemma_mod_bound(attack * length, total);
        }
        assert(d * total <= decay * length) by {
            vstd::arithmetic::div_mod::lemma_fundamental_div_mod(decay * length, total);
            vstd::arithmetic::div_mod::lemma_mod_bound(decay * length, total);
        }
        assert(a >= 0 && d >= 0) by {
            vstd::arithmetic::div_mod::lemma_div_pos_is_pos(attack * length, total);
            vstd::arithmetic::div_mod::lemma_div_pos_is_pos(decay * length, total);
        }
        assert((a + d) * total <= (attack + decay) * length) by (nonlinear_arith)
            requires
                a * total <= attack * length,
                d * total <= decay * length,
        ;
        if length > 0 {
            assert((attack + decay) * length < total * length) by (nonlinear_arith)
                requires
                    attack + decay < total,
                    length > 0,
            ;
            assert(a + d < length) by (nonlinear_arith)
                requires
                    (a + d) * total <= (attack + decay) * length,
                    (attack + decay) * length < total * length,
                    total > 0,
            ;
        }
        assert(a <= attack) by (nonlinear_arith)
            requires
                a * total <= attack * length,
                length < total,
                attack >= 0,
                total > 0,
        ;
        assert(d <= decay) by (nonlinear_arith)
            requires
                d * total <= decay * length,
                length < total,
                decay >= 0,
                total > 0,
        ;
    }
}

proof fn lemma_level_bounds(e: EnvelopeModel, j: int)
    requires
        0 <= e.attack,
        0 <= e.decay,
        e.attack + e.decay + e.release <= e.length,
        e.release >= 1,
        0 <= e.sustain <= 255,
        0 <= j < e.length,
    ensures
        0 <= e.level_at(j) <= 255,
{
    if j < e.attack {
        assert(0 <= 255 * j / e.attack <= 255) by (nonlinear_arith)
            requires
                0 <= j < e.attack,
        {
            vstd::arithmetic::div_mod::lemma_div_is_ordered(255 * j, 255 * e.attack, e.attack);
            vstd::arithmetic::div_mod::lemma_div_pos_is_pos(255 * j, e.attack);
            vstd::arithmetic::div_mod::lemma_div_multiples_vanish(255, e.attack);
        }
    } else if j < e.attack + e.decay {
        let k = j - e.attack;
        let span = 255 - e.sustain;
        assert(0 <= span * k / e.decay <= span) by (nonlinear_arith)
            requires
                0 <= k < e.decay,
                0 <= span,
        {
            vstd::arithmetic::div_mod::lemma_div_is_ordered(span * k, span * e.decay, e.decay);
            vstd::arithmetic::div_mod::lemma_div_pos_is_pos(span * k, e.decay);
            vstd::arithmetic::div_mod::lemma_div_multiples_vanish(span, e.decay);
        }
    } else if j >= e.length - e.release {
        let k = e.length - 1 - j;
        assert(0 <= e.sustain * k / e.release <= e.sustain) by (nonlinear_arith)
            requires
                0 <= k < e.release,
                0 <= e.sustain,
        {
            vstd::arithmetic::div_mod::lemma_div_is_ordered(e.sustain * k, e.sustain * e.release, e.release);
            vstd::arithmetic::div_mod::lemma_div_pos_is_pos(e.sustain * k, e.release);
            vstd::arithmetic::div_mod::lemma_div_multiples_vanish(e.sustain, e.release);
        }
    }
}

} // verus!
