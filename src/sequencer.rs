//! One voice driven by a melody: scheduler, oscillator, quantizer and envelope.
use crate::envelope::{lemma_envelope_bounded, shaped, EnvelopeModel, Enveloped};
use crate::melody::{Melody, MelodyView, Note, Pitch};
use crate::mixer::{mixed, total_weight, Mixer};
use crate::quantize::{quantized_length, QuantizedModel};
use crate::waves::{
    advancement_for, PhaseModel, SawtoothWaveGenerator, SquareWaveGenerator, WaveGenerable,
    WaveModel, MID_SCALE,
};
use vstd::prelude::*;

verus! {

/// Longest a note sounds, in milliseconds, however slow the tempo.
pub const NOTE_CEILING_MS: u32 = 220;

/// Weight of the lead voice in the mix.
pub const LEAD_WEIGHT: u8 = 140;

/// Weight of the bass voice in the mix.
pub const BASS_WEIGHT: u8 = 110;

/// Divisor of the mix: the sum of the weights, so that two voices at full
/// amplitude still fit a sample.
pub const MASTER_ATTENUATION: u32 = 250;

/// Output while a rest plays: zero amplitude.
pub const REST_SAMPLE: i16 = 0;

/// The waveform a sequencer plays its notes with.
#[derive(Clone, Copy, Debug, PartialEq, Eq, Structural)]
pub enum GeneratorType {
    Square,
    Sawtooth,
}

/// A raw sample as a signed sample about the zero-crossing value.
pub open spec fn centered(raw: u16) -> i16 {
    (raw - MID_SCALE) as i16
}

fn center(raw: u16) -> (r: i16)
    ensures
        r == centered(raw),
{
    (raw as i32 - MID_SCALE as i32) as i16
}

/// The oscillator, at phase zero, for `pitch` at `sample_rate`.
pub open spec fn wave_for(gen_type: GeneratorType, sample_rate: int, pitch: Pitch) -> WaveModel {
    let phase = PhaseModel {
        position: 0,
        advancement: advancement_for(sample_rate, pitch.frequency() as int),
    };
    match gen_type {
        GeneratorType::Square => WaveModel::Square(phase),
        GeneratorType::Sawtooth => WaveModel::Sawtooth(phase),
    }
}

/// What a sequencer is playing.
pub enum VoiceModel {
    /// Nothing has started yet.
    Idle,
    /// A rest.
    Silent,
    /// A note under its envelope.
    Sounding(EnvelopeModel),
}

impl VoiceModel {
    /// One sample of the voice: silence when idle or resting, the next
    /// enveloped sample while a note lasts, and silence once it has ended.
    pub open spec fn step(self) -> (VoiceModel, i16) {
        match self {
            VoiceModel::Idle => (VoiceModel::Idle, 0),
            VoiceModel::Silent => (VoiceModel::Silent, REST_SAMPLE),
            VoiceModel::Sounding(e) => {
                let (e, sample) = e.step();
                (
                    VoiceModel::Sounding(e),
                    match sample {
                        Some(raw) => centered(raw),
                        None => 0,
                    },
                )
            },
        }
    }
}

/// A sequencer seen from outside.
pub struct SequencerView {
    pub melody: MelodyView,
    pub gen_type: GeneratorType,
    pub attack: int,
    pub decay: int,
    pub sustain: int,
    pub release: int,
    pub voice: VoiceModel,
}

impl SequencerView {
    /// A valid schedule, and envelope parameters that fit in a byte.
    pub open spec fn valid(self) -> bool {
        &&& self.melody.schedule.valid()
        &&& 0 <= self.attack <= 255
        &&& 0 <= self.decay <= 255
        &&& 0 <= self.sustain <= 255
        &&& 0 <= self.release <= 255
    }

    /// The voice that a starting note brings: a fresh oscillator at the note's
    /// pitch, quantized to the note's length and under the envelope, or
    /// silence for a rest.
    pub open spec fn voice_for(self, note: Note) -> VoiceModel {
        let s = self.melody.schedule;
        match note.pitch() {
            Some(pitch) => VoiceModel::Sounding(
                EnvelopeModel::initial(
                    QuantizedModel {
                        wave: wave_for(self.gen_type, s.sample_rate, pitch),
                        remaining: quantized_length(
                            s.sample_rate,
                            s.tempo,
                            note.duration() as int,
                            NOTE_CEILING_MS as int,
                        ) as nat,
                    },
                    s.sample_rate,
                    self.attack,
                    self.decay,
                    self.sustain,
                    self.release,
                ),
            ),
            None => VoiceModel::Silent,
        }
    }

    /// One sample: the melody advances; a note starting now replaces the voice;
    /// the voice gives the sample.
    pub open spec fn step(self) -> (SequencerView, i16) {
        let voice = match self.melody.schedule.note_at(self.melody.ticks as int) {
            Some(note) => self.voice_for(note),
            None => self.voice,
        };
        let (voice, sample) = voice.step();
        (SequencerView { melody: self.melody.advanced(), voice, ..self }, sample)
    }
}

/// The voice a pitched note brings ends at zero amplitude: over a note of
/// length `L > 0`, the envelope level at sample `L - 1` is zero, no more than
/// where the release starts, and that sample comes out at the zero-crossing
/// value; every level lies between zero and full.
pub proof fn lemma_voice_ends_silent(s: SequencerView, note: Note, raw: u16)
    requires
        s.valid(),
        note.pitch() is Some,
    ensures
        s.voice_for(note) matches VoiceModel::Sounding(e) && (e.length > 0 ==> {
            &&& e.level_at(e.length - 1) == 0
            &&& e.level_at(e.length - 1) <= e.level_at(e.length - e.release)
            &&& shaped(raw, e.level_at(e.length - 1)) == MID_SCALE
            &&& forall|j: int| 0 <= j < e.length ==> 0 <= #[trigger] e.level_at(j) <= 255
        }),
{
    let sch = s.melody.schedule;
    let pitch = note.pitch().unwrap();
    let inner = QuantizedModel {
        wave: wave_for(s.gen_type, sch.sample_rate, pitch),
        remaining: quantized_length(
            sch.sample_rate,
            sch.tempo,
            note.duration() as int,
            NOTE_CEILING_MS as int,
        ) as nat,
    };
    if inner.remaining > 0 {
        lemma_envelope_bounded(inner, sch.sample_rate, s.attack, s.decay, s.sustain, s.release, raw);
    }
}

enum Voice {
    Idle,
    Silent,
    Sounding(Enveloped),
}

impl View for Voice {
    type V = VoiceModel;

    closed spec fn view(&self) -> VoiceModel {
        match self {
            Voice::Idle => VoiceModel::Idle,
            Voice::Silent => VoiceModel::Silent,
            Voice::Sounding(e) => VoiceModel::Sounding(e@),
        }
    }
}

impl Voice {
    closed spec fn wf(&self) -> bool {
        match self {
            Voice::Sounding(e) => e.wf(),
            _ => true,
        }
    }

    fn next(&mut self) -> (r: i16)
        requires
            old(self).wf(),
        ensures
            final(self).wf(),
            (final(self)@, r) == old(self)@.step(),
    {
        match self {
            Voice::Idle => 0,
            Voice::Silent => REST_SAMPLE,
            Voice::Sounding(e) => match e.next() {
                Some(raw) => center(raw),
                None => 0,
            },
        }
    }
}

/// Builds the oscillator for `pitch` at `sample_rate`.
fn build(gen_type: GeneratorType, sample_rate: u32, pitch: Pitch) -> (r: WaveGenerable)
    requires
        sample_rate > 0,
    ensures
        r@ == wave_for(gen_type, sample_rate as int, pitch),
{
    match gen_type {
        GeneratorType::Square => WaveGenerable::Square(
            SquareWaveGenerator::new(sample_rate as usize, pitch.frequency() as usize),
        ),
        GeneratorType::Sawtooth => WaveGenerable::Sawtooth(
            SawtoothWaveGenerator::new(sample_rate as usize, pitch.frequency() as usize),
        ),
    }
}

/// Plays a melody with one waveform and one envelope, one sample per call.
pub struct Sequencer<'a> {
    gen_type: GeneratorType,
    voice: Voice,
    melody: Melody<'a>,
    attack: u8,
    decay: u8,
    sustain: u8,
    release: u8,
}

impl<'a> View for Sequencer<'a> {
    type V = SequencerView;

    closed spec fn view(&self) -> SequencerView {
        SequencerView {
            melody: self.melody@,
            gen_type: self.gen_type,
            attack: self.attack as int,
            decay: self.decay as int,
            sustain: self.sustain as int,
            release: self.release as int,
            voice: self.voice@,
        }
    }
}

impl<'a> Sequencer<'a> {
    /// The melody and the voice are well formed.
    pub closed spec fn wf(&self) -> bool {
        &&& self.melody.wf()
        &&& self.voice.wf()
    }

    /// A well-formed sequencer plays a valid schedule with byte-sized
    /// envelope parameters.
    pub proof fn lemma_valid(&self)
        requires
            self.wf(),
        ensures
            self@.valid(),
    {
        self.melody.lemma_valid();
    }

    /// A sequencer playing `melody` with `gen_type` under an envelope of
    /// `attack`, `decay` and `release` milliseconds and `sustain` level out of
    /// 255; nothing sounds until the melody's first note starts.
    pub fn new(
        melody: Melody<'a>,
        gen_type: GeneratorType,
        attack: u8,
        decay: u8,
        sustain: u8,
        release: u8,
    ) -> (r: Self)
        requires
            melody.wf(),
        ensures
            r.wf(),
            r@ == (SequencerView {
                melody: melody@,
                gen_type,
                attack: attack as int,
                decay: decay as int,
                sustain: sustain as int,
                release: release as int,
                voice: VoiceModel::Idle,
            }),
    {
        Sequencer { gen_type, voice: Voice::Idle, melody, attack, decay, sustain, release }
    }

    /// The next output sample.
    pub fn next(&mut self) -> (r: i16)
        requires
            old(self).wf(),
        ensures
            final(self).wf(),
            (final(self)@, r) == old(self)@.step(),
    {
        proof {
            self.melody.lemma_valid();
        }
        let started = self.melody.next_note();
        match started {
            Some(note) => {
                match note.pitch() {
                    Some(pitch) => {
                        let sample_rate = self.melody.sample_rate();
                        let generator = build(self.gen_type, sample_rate, pitch)
                            .quantize(sample_rate, self.melody.tempo(), note.duration(), NOTE_CEILING_MS)
                            .envelope(sample_rate, self.attack, self.decay, self.sustain, self.release);
                        self.voice = Voice::Sounding(generator);
                    },
                    None => {
                        self.voice = Voice::Silent;
                    },
                }
            },
            None => {},
        }
        self.voice.next()
    }
}

/// One sample of the lead and bass voices mixed.
pub fn mix(lead: &mut Sequencer, bass: &mut Sequencer) -> (r: i16)
    requires
        old(lead).wf(),
        old(bass).wf(),
    ensures
        final(lead).wf(),
        final(bass).wf(),
        final(lead)@ == old(lead)@.step().0,
        final(bass)@ == old(bass)@.step().0,
        r == mixed(
            seq![(old(lead)@.step().1, LEAD_WEIGHT), (old(bass)@.step().1, BASS_WEIGHT)],
            MASTER_ATTENUATION as int,
        ),
{
    let a = lead.next();
    let b = bass.next();
    let mixer = Mixer::new().add(a, LEAD_WEIGHT);
    assert(mixer@.drop_last() =~= Seq::<(i16, u8)>::empty());
    assert(total_weight(Seq::<(i16, u8)>::empty()) == 0);
    assert(total_weight(mixer@) == LEAD_WEIGHT);
    let mixer = mixer.add(b, BASS_WEIGHT);
    assert(mixer@.drop_last() =~= seq![(a, LEAD_WEIGHT)]);
    assert(total_weight(mixer@) == LEAD_WEIGHT + BASS_WEIGHT);
    assert(mixer@ =~= seq![(a, LEAD_WEIGHT), (b, BASS_WEIGHT)]);
    mixer.finish(MASTER_ATTENUATION)
}

/// The first `n` mixed samples of the lead and bass voices, and the voices
/// after them.
pub open spec fn mixed_run(lead: SequencerView, bass: SequencerView, n: nat) -> (
    Seq<i16>,
    SequencerView,
    SequencerView,
)
    decreases n,
{
    if n == 0 {
        (Seq::empty(), lead, bass)
    } else {
        let (samples, lead, bass) = mixed_run(lead, bass, (n - 1) as nat);
        let (lead_next, a) = lead.step();
        let (bass_next, b) = bass.step();
        let sample = mixed(seq![(a, LEAD_WEIGHT), (b, BASS_WEIGHT)], MASTER_ATTENUATION as int);
        (samples.push(sample as i16), lead_next, bass_next)
    }
}

/// Fills `out` with the next mixed samples of the lead and bass voices.
pub fn render(lead: &mut Sequencer, bass: &mut Sequencer, out: &mut [i16])
    requires
        old(lead).wf(),
        old(bass).wf(),
    ensures
        final(lead).wf(),
        final(bass).wf(),
        (final(out)@, final(lead)@, final(bass)@) == mixed_run(
            old(lead)@,
            old(bass)@,
            old(out)@.len(),
        ),
{
    let count = out.len();
    for i in 0..count
        invariant
            lead.wf(),
            bass.wf(),
            out@.len() == count,
            count == old(out)@.len(),
            ({
                let (samples, l, b) = mixed_run(old(lead)@, old(bass)@, i as nat);
                &&& out@.take(i as int) == samples
                &&& lead@ == l
                &&& bass@ == b
            }),
    {
        let sample = mix(lead, bass);
        out[i] = sample;
        assert(out@.take(i + 1) =~= out@.take(i as int).push(sample));
    }
    assert(out@.take(count as int) =~= out@);
}

} // verus!
