//! Scores and the sample-clocked melody scheduler.
use crate::SAMPLE_RATE;
use vstd::prelude::*;

verus! {

/// Equal-tempered pitches from E2 to A5.
#[derive(Clone, Copy, Debug, PartialEq, Eq, Structural)]
pub enum Pitch {
    E2,
    F2,
    Gb2,
    G2,
    Ab2,
    A2,
    Bb2,
    B2,
    C3,
    Db3,
    D3,
    Eb3,
    E3,
    F3,
    Gb3,
    G3,
    Ab3,
    A3,
    Bb3,
    B3,
    C4,
    Db4,
    D4,
    Eb4,
    E4,
    F4,
    Gb4,
    G4,
    Ab4,
    A4,
    Bb4,
    B4,
    C5,
    Db5,
    D5,
    Eb5,
    E5,
    F5,
    Gb5,
    G5,
    Ab5,
    A5,
}

impl Pitch {
    /// Frequency of the pitch in whole hertz (the equal-tempered value, rounded down).
    pub open spec fn spec_frequency(self) -> u32 {
        match self {
            Pitch::E2 => 82,
            Pitch::F2 => 87,
            Pitch::Gb2 => 92,
            Pitch::G2 => 97,
            Pitch::Ab2 => 103,
            Pitch::A2 => 110,
            Pitch::Bb2 => 116,
            Pitch::B2 => 123,
            Pitch::C3 => 130,
            Pitch::Db3 => 138,
            Pitch::D3 => 146,
            Pitch::Eb3 => 155,
            Pitch::E3 => 164,
            Pitch::F3 => 174,
            Pitch::Gb3 => 184,
            Pitch::G3 => 195,
            Pitch::Ab3 => 207,
            Pitch::A3 => 220,
            Pitch::Bb3 => 233,
            Pitch::B3 => 246,
            Pitch::C4 => 261,
            Pitch::Db4 => 277,
            Pitch::D4 => 293,
            Pitch::Eb4 => 311,
            Pitch::E4 => 329,
            Pitch::F4 => 349,
            Pitch::Gb4 => 369,
            Pitch::G4 => 391,
            Pitch::Ab4 => 415,
            Pitch::A4 => 440,
            Pitch::Bb4 => 466,
            Pitch::B4 => 493,
            Pitch::C5 => 523,
            Pitch::Db5 => 554,
            Pitch::D5 => 587,
            Pitch::Eb5 => 622,
            Pitch::E5 => 659,
            Pitch::F5 => 698,
            Pitch::Gb5 => 739,
            Pitch::G5 => 783,
            Pitch::Ab5 => 830,
            Pitch::A5 => 880,
        }
    }

    /// Frequency of the pitch in whole hertz (the equal-tempered value, rounded down).
    #[verifier::when_used_as_spec(spec_frequency)]
    pub fn frequency(self) -> (r: u32)
        ensures
            r == self.spec_frequency(),
    {
        match self {
            Pitch::E2 => 82,
            Pitch::F2 => 87,
            Pitch::Gb2 => 92,
            Pitch::G2 => 97,
            Pitch::Ab2 => 103,
            Pitch::A2 => 110,
            Pitch::Bb2 => 116,
            Pitch::B2 => 123,
            Pitch::C3 => 130,
            Pitch::Db3 => 138,
            Pitch::D3 => 146,
            Pitch::Eb3 => 155,
            Pitch::E3 => 164,
            Pitch::F3 => 174,
            Pitch::Gb3 => 184,
            Pitch::G3 => 195,
            Pitch::Ab3 => 207,
            Pitch::A3 => 220,
            Pitch::Bb3 => 233,
            Pitch::B3 => 246,
            Pitch::C4 => 261,
            Pitch::Db4 => 277,
            Pitch::D4 => 293,
            Pitch::Eb4 => 311,
            Pitch::E4 => 329,
            Pitch::F4 => 349,
            Pitch::Gb4 => 369,
            Pitch::G4 => 391,
            Pitch::Ab4 => 415,
            Pitch::A4 => 440,
            Pitch::Bb4 => 466,
            Pitch::B4 => 493,
            Pitch::C5 => 523,
            Pitch::Db5 => 554,
            Pitch::D5 => 587,
            Pitch::Eb5 => 622,
            Pitch::E5 => 659,
            Pitch::F5 => 698,
            Pitch::Gb5 => 739,
            Pitch::G5 => 783,
            Pitch::Ab5 => 830,
            Pitch::A5 => 880,
        }
    }
}

/// A note of a score: a pitched or silent duration.
#[derive(Clone, Copy, Debug, PartialEq, Eq, Structural)]
pub enum Note {
    Eighth(Pitch),
    EightRest,
    Quarter(Pitch),
    QuarterRest,
    Half(Pitch),
    HalfRest,
    Whole(Pitch),
    WholeRest,
}

impl Note {
    /// Length of the note in eighths.
    pub open spec fn spec_duration(self) -> u8 {
        match self {
            Note::Eighth(_) | Note::EightRest => 1,
            Note::Quarter(_) | Note::QuarterRest => 2,
            Note::Half(_) | Note::HalfRest => 4,
            Note::Whole(_) | Note::WholeRest => 8,
        }
    }

    /// Length of the note in eighths.
    #[verifier::when_used_as_spec(spec_duration)]
    pub fn duration(self) -> (r: u8)
        ensures
            r == self.spec_duration(),
    {
        match self {
            Note::Eighth(_) | Note::EightRest => 1,
            Note::Quarter(_) | Note::QuarterRest => 2,
            Note::Half(_) | Note::HalfRest => 4,
            Note::Whole(_) | Note::WholeRest => 8,
        }
    }

    /// The pitch of the note, or `None` for a rest.
    pub open spec fn spec_pitch(self) -> Option<Pitch> {
        match self {
            Note::Eighth(p) | Note::Quarter(p) | Note::Half(p) | Note::Whole(p) => Some(p),
            _ => None,
        }
    }

    /// The pitch of the note, or `None` for a rest.
    #[verifier::when_used_as_spec(spec_pitch)]
    pub fn pitch(self) -> (r: Option<Pitch>)
        ensures
            r == self.spec_pitch(),
    {
        match self {
            Note::Eighth(p) | Note::Quarter(p) | Note::Half(p) | Note::Whole(p) => Some(p),
            _ => None,
        }
    }
}

/// Samples per eighth note at `tempo` quarter notes per minute.
pub open spec fn note_spacing(sample_rate: int, tempo: int) -> int {
    30 * sample_rate / tempo
}

/// The silent gap at the end of each eighth: a tenth of its length.
pub open spec fn off_spacing(sample_rate: int, tempo: int) -> int {
    note_spacing(sample_rate, tempo) / 10
}

/// The sounding part of each eighth.
pub open spec fn on_spacing(sample_rate: int, tempo: int) -> int {
    note_spacing(sample_rate, tempo) - off_spacing(sample_rate, tempo)
}

/// A score played at a tempo and sample rate.
pub struct Schedule {
    pub score: Seq<Note>,
    pub sample_rate: int,
    pub tempo: int,
}

impl Schedule {
    /// A non-empty score, and a tempo slow enough that each eighth has a
    /// sounding part and a gap of at least one sample each.
    pub open spec fn valid(self) -> bool {
        &&& self.score.len() > 0
        &&& 0 < self.tempo <= 255
        &&& 0 < self.sample_rate <= u32::MAX
        &&& note_spacing(self.sample_rate, self.tempo) >= 10
    }

    pub open spec fn on(self) -> int {
        on_spacing(self.sample_rate, self.tempo)
    }

    pub open spec fn off(self) -> int {
        off_spacing(self.sample_rate, self.tempo)
    }

    /// Samples from the start of note `i` to its stop.
    pub open spec fn gate_length(self, i: int) -> int {
        self.on() * self.score[i].duration()
    }

    /// Samples from the start of note `i` to the start of the next note.
    pub open spec fn slot_length(self, i: int) -> int {
        note_spacing(self.sample_rate, self.tempo) * self.score[i].duration()
    }

    /// Sample, within one pass over the score, at which note `i` starts.
    pub open spec fn slot_start(self, i: int) -> int
        decreases i,
    {
        if i <= 0 {
            0
        } else {
            self.slot_start(i - 1) + self.slot_length(i - 1)
        }
    }

    /// Samples in one pass over the whole score.
    pub open spec fn cycle_length(self) -> int {
        self.slot_start(self.score.len() as int)
    }

    /// The note, from note `i` on, whose slot holds offset `p` counted from the
    /// start of note `i`, and the offset within that note's slot.
    pub open spec fn slot_of(self, i: int, p: int) -> (int, int)
        decreases self.score.len() - i,
    {
        if i + 1 >= self.score.len() || p < self.slot_length(i) {
            (i, p)
        } else {
            self.slot_of(i + 1, p - self.slot_length(i))
        }
    }

    /// The note sounding (or about to sound) at sample `t`, and the offset of
    /// `t` within that note's slot.
    pub open spec fn position(self, t: int) -> (int, int) {
        self.slot_of(0, t % self.cycle_length())
    }

    /// What the scheduler reports at sample `t`: a start (with the note's pitch,
    /// `None` for a rest) at the first sample of a slot, a stop at the end of its
    /// gate, and no event otherwise.
    pub open spec fn event_at(self, t: int) -> (bool, Option<Pitch>) {
        let (i, q) = self.position(t);
        if q == 0 {
            (true, self.score[i].pitch())
        } else if q == self.gate_length(i) {
            (true, None)
        } else {
            (false, None)
        }
    }

    /// The note that starts at sample `t`, if one does.
    pub open spec fn note_at(self, t: int) -> Option<Note> {
        let (i, q) = self.position(t);
        if q == 0 {
            Some(self.score[i])
        } else {
            None
        }
    }
}

/// A melody scheduler seen from outside: what it plays, and how many samples it
/// has been advanced.
pub struct MelodyView {
    pub schedule: Schedule,
    pub ticks: nat,
}

impl MelodyView {
    /// The same scheduler one sample later.
    pub open spec fn advanced(self) -> MelodyView {
        MelodyView { schedule: self.schedule, ticks: self.ticks + 1 }
    }
}

proof fn lemma_spacing_bounds(sample_rate: int, tempo: int)
    requires
        0 < sample_rate <= u32::MAX,
        0 < tempo,
        note_spacing(sample_rate, tempo) >= 10,
    ensures
        off_spacing(sample_rate, tempo) >= 1,
        on_spacing(sample_rate, tempo) >= 9,
        note_spacing(sample_rate, tempo) <= 30 * u32::MAX,
        on_spacing(sample_rate, tempo) + off_spacing(sample_rate, tempo) == note_spacing(
            sample_rate,
            tempo,
        ),
{
    let ns = note_spacing(sample_rate, tempo);
    assert(30 * sample_rate / tempo <= 30 * sample_rate) by {
        vstd::arithmetic::div_mod::lemma_div_is_ordered_by_denominator(30 * sample_rate, 1, tempo);
    }
}

proof fn lemma_slot_length(m: Schedule, i: int)
    requires
        m.valid(),
        0 <= i < m.score.len(),
    ensures
        m.slot_length(i) >= 10,
        m.slot_length(i) <= 240 * u32::MAX,
        m.gate_length(i) >= 1,
        m.gate_length(i) < m.slot_length(i),
        m.slot_length(i) - m.gate_length(i) == m.off() * m.score[i].duration(),
{
    lemma_spacing_bounds(m.sample_rate, m.tempo);
    let ns = note_spacing(m.sample_rate, m.tempo);
    let d = m.score[i].duration() as int;
    assert(1 <= d <= 8);
    assert(ns * d >= 10 && ns * d <= 240 * u32::MAX) by (nonlinear_arith)
        requires
            10 <= ns <= 30 * u32::MAX,
            1 <= d <= 8,
    ;
    assert(m.on() * d >= 1) by (nonlinear_arith)
        requires
            m.on() >= 9,
            d >= 1,
    ;
    assert(ns * d == m.on() * d + m.off() * d) by (nonlinear_arith)
        requires
            ns == m.on() + m.off(),
    ;
    assert(m.off() * d >= 1) by (nonlinear_arith)
        requires
            m.off() >= 1,
            d >= 1,
    ;
}

proof fn lemma_slot_start_increases(m: Schedule, i: int, j: int)
    requires
        m.valid(),
        0 <= i < j <= m.score.len(),
    ensures
        m.slot_start(i) + m.slot_length(i) <= m.slot_start(j),
        0 <= m.slot_start(i),
    decreases j - i,
{
    lemma_slot_start_nonneg(m, i);
    lemma_slot_length(m, i);
    if j > i + 1 {
        lemma_slot_start_increases(m, i, j - 1);
        lemma_slot_length(m, j - 1);
    }
}

proof fn lemma_slot_start_nonneg(m: Schedule, i: int)
    requires
        m.valid(),
        0 <= i <= m.score.len(),
    ensures
        0 <= m.slot_start(i),
    decreases i,
{
    if i > 0 {
        lemma_slot_start_nonneg(m, i - 1);
        lemma_slot_length(m, i - 1);
    }
}

proof fn lemma_cycle_length(m: Schedule)
    requires
        m.valid(),
    ensures
        m.cycle_length() >= 10,
{
    lemma_slot_start_increases(m, 0, m.score.len() as int);
    lemma_slot_length(m, 0);
}

proof fn lemma_slot_of(m: Schedule, j: int, i: int, q: int)
    requires
        m.valid(),
        0 <= j <= i < m.score.len(),
        0 <= q < m.slot_length(i),
    ensures
        m.slot_of(j, m.slot_start(i) - m.slot_start(j) + q) == (i, q),
    decreases i - j,
{
    if j < i {
        lemma_slot_start_increases(m, j + 1, i + 1);
        lemma_slot_start_increases(m, j, i + 1);
        lemma_slot_of(m, j + 1, i, q);
    }
}

/// Where sample `t` falls, given where it falls within the cycle.
proof fn lemma_position(m: Schedule, t: int, i: int, q: int)
    requires
        m.valid(),
        0 <= i < m.score.len(),
        0 <= q < m.slot_length(i),
        t % m.cycle_length() == m.slot_start(i) + q,
    ensures
        m.position(t) == (i, q),
{
    lemma_slot_of(m, 0, i, q);
}

/// For a fixed score and tempo the scheduler's output depends only on the sample
/// count modulo the length of one pass over the score: every pass repeats the
/// one before it, start and stop events included.
pub proof fn lemma_schedule_periodic(m: Schedule, t: nat, k: nat)
    requires
        m.valid(),
    ensures
        m.event_at(t + k * m.cycle_length()) == m.event_at(t as int),
        m.note_at(t + k * m.cycle_length()) == m.note_at(t as int),
{
    lemma_cycle_length(m);
    let c = m.cycle_length();
    assert(t + k * c == c * k + t) by (nonlinear_arith);
    vstd::arithmetic::div_mod::lemma_mod_multiples_vanish(k as int, t as int, c);
}

/// The sounding part and the gap of an eighth at `tempo` and `sample_rate`, in samples.
pub fn spacings(sample_rate: u32, tempo: u8) -> (r: (u64, u64))
    requires
        tempo > 0,
    ensures
        r.0 == on_spacing(sample_rate as int, tempo as int),
        r.1 == off_spacing(sample_rate as int, tempo as int),
        r.0 + r.1 <= 30 * u32::MAX,
{
    assert(30 * (sample_rate as int) / (tempo as int) <= 30 * (sample_rate as int)) by {
        vstd::arithmetic::div_mod::lemma_div_is_ordered_by_denominator(
            30 * (sample_rate as int),
            1,
            tempo as int,
        );
    }
    let note_spacing: u64 = 30 * (sample_rate as u64) / (tempo as u64);
    let off_spacing = note_spacing / 10;
    (note_spacing - off_spacing, off_spacing)
}

/// `(t + 1) % c` from `t % c`.
proof fn lemma_mod_successor(t: int, c: int)
    requires
        t >= 0,
        c > 1,
    ensures
        (t + 1) % c == if t % c + 1 < c {
            t % c + 1
        } else {
            0
        },
{
    vstd::arithmetic::div_mod::lemma_add_mod_noop(t, 1, c);
    vstd::arithmetic::div_mod::lemma_small_mod(1, c as nat);
    vstd::arithmetic::div_mod::lemma_mod_bound(t, c);
    if t % c + 1 < c {
        vstd::arithmetic::div_mod::lemma_small_mod((t % c + 1) as nat, c as nat);
    } else {
        vstd::arithmetic::div_mod::lemma_mod_self_0(c);
    }
}

/// An event `c` samples ahead of `t` is due at `t` exactly when `c` is zero.
proof fn lemma_due(t: int, c: int)
    requires
        t >= 0,
        0 <= c < 0x1_0000_0000_0000_0000,
    ensures
        ((t + c) % 0x1_0000_0000_0000_0000 == t % 0x1_0000_0000_0000_0000) <==> c == 0,
{
    vstd::arithmetic::div_mod::lemma_mod_equivalence(t + c, t, 0x1_0000_0000_0000_0000);
    vstd::arithmetic::div_mod::lemma_small_mod(c as nat, 0x1_0000_0000_0000_0000);
}

/// The sum of `a` and `b` modulo `2^64`.
fn wrapping_sum(a: u64, b: u64, Ghost(t): Ghost<int>) -> (r: u64)
    requires
        t >= 0,
        a == t % 0x1_0000_0000_0000_0000,
    ensures
        r == (t + b) % 0x1_0000_0000_0000_0000,
{
    proof {
        vstd::arithmetic::div_mod::lemma_add_mod_noop(t, b as int, 0x1_0000_0000_0000_0000);
        vstd::arithmetic::div_mod::lemma_small_mod(b as nat, 0x1_0000_0000_0000_0000);
    }
    a.wrapping_add(b)
}

enum MelodyEvent {
    NoteStart(u64),
    NoteStop(u64),
}

/// What one sample of the scheduler brought.
enum Tick {
    Quiet,
    Start(Note),
    Stop,
}

/// Walks a score one sample at a time, emitting note starts and stops at their
/// sample offsets and looping over the score forever.
pub struct Melody<'a> {
    notes: &'a [Note],
    sample_rate: u32,
    tempo: u8,
    current_sample: u64,
    current_note: usize,
    next_event: MelodyEvent,
    on_spacing: u64,
    off_spacing: u64,
    ticks: Ghost<nat>,
    slot: Ghost<int>,
}

impl<'a> View for Melody<'a> {
    type V = MelodyView;

    closed spec fn view(&self) -> MelodyView {
        MelodyView {
            schedule: Schedule {
                score: self.notes@,
                sample_rate: self.sample_rate as int,
                tempo: self.tempo as int,
            },
            ticks: self.ticks@,
        }
    }
}

impl<'a> Melody<'a> {
    /// Offset of the current sample within the slot of the note being played.
    closed spec fn offset(&self) -> int {
        (self.ticks@ as int) % self@.schedule.cycle_length() - self@.schedule.slot_start(self.slot@)
    }

    /// Samples until the pending event is due.
    closed spec fn countdown(&self) -> int {
        let q = self.offset();
        let i = self.slot@;
        let m = self@.schedule;
        if q == 0 {
            0
        } else if q <= m.gate_length(i) {
            m.gate_length(i) - q
        } else {
            m.slot_length(i) - q
        }
    }

    /// The internal state agrees with the view.
    pub closed spec fn wf(&self) -> bool {
        let m = self@.schedule;
        let ticks = self@.ticks;
        let n = m.score.len();
        let i = self.slot@;
        let q = self.offset();
        &&& m.valid()
        &&& self.on_spacing == m.on()
        &&& self.off_spacing == m.off()
        &&& 0 <= i < n
        &&& 0 <= q < m.slot_length(i)
        &&& self.current_sample == ticks % 0x1_0000_0000_0000_0000
        &&& q <= m.gate_length(i) ==> self.current_note == i
        &&& q > m.gate_length(i) ==> self.current_note == (i + 1) % (n as int)
        &&& match self.next_event {
            MelodyEvent::NoteStart(t) => {
                &&& (q == 0 || q > m.gate_length(i))
                &&& t == (ticks + self.countdown()) % 0x1_0000_0000_0000_0000
            },
            MelodyEvent::NoteStop(t) => {
                &&& 0 < q <= m.gate_length(i)
                &&& t == (ticks + self.countdown()) % 0x1_0000_0000_0000_0000
            },
        }
    }

    /// A well-formed scheduler plays a valid schedule.
    pub proof fn lemma_valid(&self)
        requires
            self.wf(),
        ensures
            self@.schedule.valid(),
    {
    }

    /// A scheduler over `notes` at `tempo` quarter notes per minute, at the
    /// pipeline's sample rate, before its first sample.
    pub fn new(notes: &'a [Note], tempo: u8) -> (r: Self)
        requires
            notes@.len() > 0,
            tempo > 0,
        ensures
            r.wf(),
            r@ == (MelodyView {
                schedule: Schedule {
                    score: notes@,
                    sample_rate: SAMPLE_RATE as int,
                    tempo: tempo as int,
                },
                ticks: 0,
            }),
    {
        assert(30int * 48000 / (tempo as int) >= 30int * 48000 / 255) by {
            vstd::arithmetic::div_mod::lemma_div_is_ordered_by_denominator(
                30int * 48000,
                tempo as int,
                255,
            );
        }
        Self::with_sample_rate(notes, tempo, SAMPLE_RATE)
    }

    /// A scheduler over `notes` at `tempo` quarter notes per minute and
    /// `sample_rate` samples per second, before its first sample.
    pub fn with_sample_rate(notes: &'a [Note], tempo: u8, sample_rate: u32) -> (r: Self)
        requires
            notes@.len() > 0,
            tempo > 0,
            sample_rate > 0,
            note_spacing(sample_rate as int, tempo as int) >= 10,
        ensures
            r.wf(),
            r@ == (MelodyView {
                schedule: Schedule {
                    score: notes@,
                    sample_rate: sample_rate as int,
                    tempo: tempo as int,
                },
                ticks: 0,
            }),
    {
        proof {
            lemma_spacing_bounds(sample_rate as int, tempo as int);
        }
        let (on_spacing, off_spacing) = spacings(sample_rate, tempo);
        let r = Melody {
            notes,
            sample_rate,
            tempo,
            current_sample: 0,
            current_note: 0,
            next_event: MelodyEvent::NoteStart(0),
            on_spacing,
            off_spacing,
            ticks: Ghost(0),
            slot: Ghost(0),
        };
        proof {
            let m = r@.schedule;
            lemma_cycle_length(m);
            lemma_slot_length(m, 0);
            vstd::arithmetic::div_mod::lemma_small_mod(0, m.cycle_length() as nat);
            vstd::arithmetic::div_mod::lemma_small_mod(0, 0x1_0000_0000_0000_0000);
        }
        r
    }

    /// Advances the scheduler by one sample.
    fn tick(&mut self) -> (r: Tick)
        requires
            old(self).wf(),
        ensures
            final(self).wf(),
            final(self)@ == old(self)@.advanced(),
            match r {
                Tick::Start(note) => {
                    &&& old(self)@.schedule.note_at(old(self)@.ticks as int) == Some(note)
                    &&& old(self)@.schedule.event_at(old(self)@.ticks as int) == (true, note.pitch())
                },
                Tick::Stop => {
                    &&& old(self)@.schedule.note_at(old(self)@.ticks as int) == None::<Note>
                    &&& old(self)@.schedule.event_at(old(self)@.ticks as int) == (true, None::<Pitch>)
                },
                Tick::Quiet => {
                    &&& old(self)@.schedule.note_at(old(self)@.ticks as int) == None::<Note>
                    &&& old(self)@.schedule.event_at(old(self)@.ticks as int) == (false, None::<Pitch>)
                },
            },
    {
        let ghost m = self@.schedule;
        let ghost n = m.score.len() as int;
        let ghost i = self.slot@;
        let ghost q = self.offset();
        let ghost c = self.countdown();
        let ghost ticks = self@.ticks as int;
        proof {
            lemma_cycle_length(m);
            lemma_slot_length(m, i);
            lemma_slot_start_increases(m, i, i + 1);
            vstd::arithmetic::div_mod::lemma_mod_bound(ticks, m.cycle_length());
            lemma_position(m, ticks, i, q);
            lemma_due(ticks, c);
            lemma_mod_successor(ticks, m.cycle_length());
            lemma_mod_successor(ticks, 0x1_0000_0000_0000_0000);
            lemma_slot_length(m, 0);
            if i + 1 < n {
                lemma_slot_start_increases(m, i + 1, n);
                lemma_slot_length(m, i + 1);
                vstd::arithmetic::div_mod::lemma_small_mod((i + 1) as nat, n as nat);
            } else {
                vstd::arithmetic::div_mod::lemma_mod_self_0(n);
            }
        }
        let now = self.current_sample;
        let due = match self.next_event {
            MelodyEvent::NoteStart(t) => t == now,
            MelodyEvent::NoteStop(t) => t == now,
        };
        assert(due <==> c == 0);
        self.current_sample = wrapping_sum(now, 1, Ghost(ticks));
        self.ticks = Ghost(self.ticks@ + 1);
        self.slot = Ghost(
            if q + 1 < m.slot_length(i) {
                i
            } else if i + 1 < n {
                i + 1
            } else {
                0
            },
        );
        proof {
            if q + 1 == m.slot_length(i) {
                if i + 1 < n {
                    assert(self.offset() == 0);
                } else {
                    assert(m.slot_start(n) == m.cycle_length());
                    assert(self.offset() == 0);
                }
            } else {
                assert(self.offset() == q + 1);
            }
        }
        if !due {
            return Tick::Quiet;
        }
        let note = self.notes[self.current_note];
        match self.next_event {
            MelodyEvent::NoteStart(_) => {
                let gate = self.on_spacing * note.duration() as u64;
                self.next_event = MelodyEvent::NoteStop(wrapping_sum(now, gate, Ghost(ticks)));
                Tick::Start(note)
            },
            MelodyEvent::NoteStop(_) => {
                let gap = self.off_spacing * note.duration() as u64;
                self.next_event = MelodyEvent::NoteStart(wrapping_sum(now, gap, Ghost(ticks)));
                self.current_note = if self.current_note + 1 == self.notes.len() {
                    0
                } else {
                    self.current_note + 1
                };
                Tick::Stop
            },
        }
    }

    /// Advances by one sample and reports the event due at it: `(true,
    /// Some(pitch))` when a note starts, `(true, None)` when a rest starts or a
    /// note stops, `(false, None)` when nothing happens.
    pub fn next_sample(&mut self) -> (r: (bool, Option<Pitch>))
        requires
            old(self).wf(),
        ensures
            final(self).wf(),
            final(self)@ == old(self)@.advanced(),
            r == old(self)@.schedule.event_at(old(self)@.ticks as int),
    {
        match self.tick() {
            Tick::Start(note) => (true, note.pitch()),
            Tick::Stop => (true, None),
            Tick::Quiet => (false, None),
        }
    }

    /// Advances by one sample and returns the note that starts at it, if any.
    pub fn next_note(&mut self) -> (r: Option<Note>)
        requires
            old(self).wf(),
        ensures
            final(self).wf(),
            final(self)@ == old(self)@.advanced(),
            r == old(self)@.schedule.note_at(old(self)@.ticks as int),
    {
        match self.tick() {
            Tick::Start(note) => Some(note),
            _ => None,
        }
    }

    /// The tempo, in quarter notes per minute.
    pub fn tempo(&self) -> (r: u8)
        ensures
            r == self@.schedule.tempo,
    {
        self.tempo
    }

    /// The sample rate, in samples per second.
    pub fn sample_rate(&self) -> (r: u32)
        ensures
            r == self@.schedule.sample_rate,
    {
        self.sample_rate
    }

    /// Length of the sounding part of an eighth, in samples.
    pub fn on_spacing(&self) -> (r: u64)
        requires
            self.wf(),
        ensures
            r == self@.schedule.on(),
    {
        self.on_spacing
    }
}

} // verus!
