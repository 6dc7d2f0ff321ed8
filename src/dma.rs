//! The ping-pong buffer a circular transfer engine streams to the audio output.
use vstd::prelude::*;

verus! {

/// Words in the buffer: interleaved left and right samples.
pub const BUFFER_SIZE: usize = 64;

/// Stereo frames in each half of the buffer.
pub const HALF_FRAMES: usize = 16;

/// One of the two halves of the buffer.
#[derive(Clone, Copy, Debug, PartialEq, Eq, Structural)]
pub enum BufferHalf {
    FirstHalf,
    SecondHalf,
}

impl BufferHalf {
    pub open spec fn spec_other(self) -> BufferHalf {
        match self {
            BufferHalf::FirstHalf => BufferHalf::SecondHalf,
            BufferHalf::SecondHalf => BufferHalf::FirstHalf,
        }
    }

    /// The other half.
    #[verifier::when_used_as_spec(spec_other)]
    pub fn other(self) -> (r: BufferHalf)
        ensures
            r == self.spec_other(),
    {
        match self {
            BufferHalf::FirstHalf => BufferHalf::SecondHalf,
            BufferHalf::SecondHalf => BufferHalf::FirstHalf,
        }
    }

    /// Index of the first word of this half.
    pub open spec fn base(self) -> int {
        match self {
            BufferHalf::FirstHalf => 0,
            BufferHalf::SecondHalf => (BUFFER_SIZE / 2) as int,
        }
    }
}

/// The flags the transfer engine raises as it reads.
#[derive(Clone, Copy, Debug, PartialEq, Eq, Structural)]
pub enum TransferFlag {
    /// It has read the first half and moved on to the second.
    HalfTransfer,
    /// It has read the second half and wrapped around to the first.
    TransferComplete,
}

/// The flag to wait for after filling `half`: the one the engine raises when it
/// moves onto `half`, which frees the other half.
pub open spec fn flag_after_fill(half: BufferHalf) -> TransferFlag {
    match half {
        BufferHalf::FirstHalf => TransferFlag::TransferComplete,
        BufferHalf::SecondHalf => TransferFlag::HalfTransfer,
    }
}

/// The half the engine has just finished reading when it raises `flag`.
pub open spec fn half_consumed(flag: TransferFlag) -> BufferHalf {
    match flag {
        TransferFlag::HalfTransfer => BufferHalf::FirstHalf,
        TransferFlag::TransferComplete => BufferHalf::SecondHalf,
    }
}

/// The half the engine reads after it raises `flag`.
pub open spec fn half_in_flight(flag: TransferFlag) -> BufferHalf {
    half_consumed(flag).spec_other()
}

/// Fills alternate between the halves. After the wait that follows a fill of
/// `half`, the engine is reading `half` and has just finished the other one;
/// the next fill writes that other half, the one last reported consumed, and
/// never the half in flight.
pub proof fn lemma_ping_pong(half: BufferHalf)
    ensures
        half.other() != half,
        half.other().other() == half,
        half_in_flight(flag_after_fill(half)) == half,
        half_consumed(flag_after_fill(half)) == half.other(),
{
}

/// A signed sample as the 16-bit word the output takes: its two's complement.
pub open spec fn sample_word(sample: i16) -> u16 {
    if sample >= 0 {
        sample as u16
    } else {
        (sample + 0x10000) as u16
    }
}

fn word_of(sample: i16) -> (r: u16)
    ensures
        r == sample_word(sample),
{
    if sample >= 0 {
        sample as u16
    } else {
        (sample as i32 + 0x10000) as u16
    }
}

/// The buffer holds `samples` as stereo frames from word `base` on: each
/// sample twice, left then right.
pub open spec fn holds_frames(buffer: Seq<u16>, base: int, samples: Seq<i16>) -> bool {
    forall|i: int|
        0 <= i < samples.len() ==> {
            &&& #[trigger] buffer[base + 2 * i] == sample_word(samples[i])
            &&& buffer[base + 2 * i + 1] == sample_word(samples[i])
        }
}

/// The buffer and the half the next fill writes relative to.
pub struct DmaView {
    pub buffer: Seq<u16>,
    pub half: BufferHalf,
}

/// A buffer split in two halves: the caller fills one while the transfer
/// engine reads the other.
pub struct DmaStream {
    buffer: [u16; BUFFER_SIZE],
    ping_pong: BufferHalf,
}

impl View for DmaStream {
    type V = DmaView;

    closed spec fn view(&self) -> DmaView {
        DmaView { buffer: self.buffer@, half: self.ping_pong }
    }
}

impl DmaStream {
    /// A silent buffer, with the first half as the current one.
    pub fn new() -> (r: Self)
        ensures
            r@.buffer =~= Seq::new(BUFFER_SIZE as nat, |i: int| 0u16),
            r@.half == BufferHalf::FirstHalf,
    {
        DmaStream { buffer: [0u16; BUFFER_SIZE], ping_pong: BufferHalf::FirstHalf }
    }

    /// Writes `samples` as frames from word `base` on, leaving the other words.
    fn fill_frames(&mut self, base: usize, samples: &[i16])
        requires
            old(self)@.buffer.len() == BUFFER_SIZE,
            base + 2 * samples@.len() <= BUFFER_SIZE,
        ensures
            final(self)@.half == old(self)@.half,
            final(self)@.buffer.len() == BUFFER_SIZE,
            holds_frames(final(self)@.buffer, base as int, samples@),
            forall|j: int|
                0 <= j < BUFFER_SIZE && !(base <= j < base + 2 * samples@.len())
                    ==> #[trigger] final(self)@.buffer[j] == old(self)@.buffer[j],
    {
        for index in 0..samples.len()
            invariant
                self.ping_pong == old(self).ping_pong,
                self.buffer@.len() == BUFFER_SIZE,
                base + 2 * samples@.len() <= BUFFER_SIZE,
                holds_frames(self.buffer@, base as int, samples@.take(index as int)),
                forall|j: int|
                    0 <= j < BUFFER_SIZE && !(base <= j < base + 2 * index) ==> #[trigger] self.buffer@[j]
                        == old(self)@.buffer[j],
        {
            let word = word_of(samples[index]);
            self.buffer[base + 2 * index] = word;
            self.buffer[base + 2 * index + 1] = word;
            assert(samples@.take(index + 1).drop_last() =~= samples@.take(index as int));
        }
        assert(samples@.take(samples@.len() as int) =~= samples@);
    }

    /// Fills the whole buffer with `samples`, first half then second, before
    /// the engine starts; the first half becomes the current one.
    pub fn begin(&mut self, samples: &[i16])
        requires
            old(self)@.buffer.len() == BUFFER_SIZE,
            samples@.len() == 2 * HALF_FRAMES,
        ensures
            final(self)@.buffer.len() == BUFFER_SIZE,
            final(self)@.half == BufferHalf::FirstHalf,
            holds_frames(final(self)@.buffer, 0, samples@),
    {
        self.fill_frames(0, samples);
        self.ping_pong = BufferHalf::FirstHalf;
    }

    /// Switches to the other half and fills it with `samples`, leaving the half
    /// in flight untouched; returns the flag to wait for before the next fill.
    pub fn fill_next_half(&mut self, samples: &[i16]) -> (r: TransferFlag)
        requires
            old(self)@.buffer.len() == BUFFER_SIZE,
            samples@.len() == HALF_FRAMES,
        ensures
            final(self)@.half == old(self)@.half.other(),
            final(self)@.buffer.len() == BUFFER_SIZE,
            holds_frames(final(self)@.buffer, final(self)@.half.base(), samples@),
            forall|j: int|
                0 <= j < BUFFER_SIZE && !(final(self)@.half.base() <= j < final(self)@.half.base()
                    + BUFFER_SIZE / 2) ==> #[trigger] final(self)@.buffer[j] == old(self)@.buffer[j],
            r == flag_after_fill(final(self)@.half),
    {
        let half = self.ping_pong.other();
        let base: usize = match half {
            BufferHalf::FirstHalf => 0,
            BufferHalf::SecondHalf => BUFFER_SIZE / 2,
        };
        self.fill_frames(base, samples);
        self.ping_pong = half;
        match half {
            BufferHalf::FirstHalf => TransferFlag::TransferComplete,
            BufferHalf::SecondHalf => TransferFlag::HalfTransfer,
        }
    }

    /// The words of the buffer, where the transfer engine reads them.
    pub fn buffer(&self) -> (r: &[u16])
        ensures
            r@ == self@.buffer,
    {
        &self.buffer
    }

    /// The half the last fill wrote.
    pub fn half(&self) -> (r: BufferHalf)
        ensures
            r == self@.half,
    {
        self.ping_pong
    }
}

} // verus!
