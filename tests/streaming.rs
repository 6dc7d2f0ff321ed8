use synth::cs43l22::{BusOutcome, CodecAction, CodecFault, CS43L22, CS43L22_ADDRESS};
use synth::dma::{BufferHalf, DmaStream, TransferFlag, BUFFER_SIZE, HALF_FRAMES};

#[test]
fn new_buffer_is_silent() {
    let stream = DmaStream::new();
    assert_eq!(stream.buffer().len(), BUFFER_SIZE);
    assert!(stream.buffer().iter().all(|w| *w == 0));
    assert_eq!(stream.half(), BufferHalf::FirstHalf);
}

#[test]
fn begin_fills_both_halves_as_stereo_pairs() {
    let mut stream = DmaStream::new();
    let samples: Vec<i16> = (0..2 * HALF_FRAMES as i16).map(|i| i * 100 - 1000).collect();
    stream.begin(&samples);
    let buffer = stream.buffer();
    for (i, s) in samples.iter().enumerate() {
        assert_eq!(buffer[2 * i], *s as u16);
        assert_eq!(buffer[2 * i + 1], *s as u16);
    }
    assert_eq!(buffer[0], 0xFC18);
    assert_eq!(stream.half(), BufferHalf::FirstHalf);
}

#[test]
fn fills_alternate_halves() {
    let mut stream = DmaStream::new();
    let first = vec![-1i16; HALF_FRAMES];
    let second = vec![7i16; HALF_FRAMES];
    let flag = stream.fill_next_half(&first);
    assert_eq!(flag, TransferFlag::HalfTransfer);
    assert_eq!(stream.half(), BufferHalf::SecondHalf);
    assert!(stream.buffer()[..BUFFER_SIZE / 2].iter().all(|w| *w == 0));
    assert!(stream.buffer()[BUFFER_SIZE / 2..].iter().all(|w| *w == 0xFFFF));
    let flag = stream.fill_next_half(&second);
    assert_eq!(flag, TransferFlag::TransferComplete);
    assert_eq!(stream.half(), BufferHalf::FirstHalf);
    assert!(stream.buffer()[..BUFFER_SIZE / 2].iter().all(|w| *w == 7));
    assert!(stream.buffer()[BUFFER_SIZE / 2..].iter().all(|w| *w == 0xFFFF));
    let mut previous = stream.half();
    for _ in 0..10 {
        stream.fill_next_half(&second);
        assert_ne!(stream.half(), previous);
        assert_eq!(stream.half(), previous.other());
        previous = stream.half();
    }
}

#[test]
fn codec_boot_sequence() {
    let mut codec = CS43L22::new();
    assert_eq!(CS43L22_ADDRESS, 0x4A);
    assert_eq!(codec.initialize(BusOutcome::Done), CodecAction::ReleaseReset);
    assert_eq!(codec.initialize(BusOutcome::Done), CodecAction::ReadRegister(0x01));
    let mut writes = vec![];
    let mut action = codec.initialize(BusOutcome::Read(0xE3));
    while let CodecAction::WriteRegister(register, value) = action {
        writes.push((register, value));
        action = codec.initialize(BusOutcome::Done);
    }
    assert_eq!(action, CodecAction::Ready);
    assert_eq!(
        writes,
        vec![
            (0x02, 0x01),
            (0x00, 0x99),
            (0x47, 0x80),
            (0x32, 0x80),
            (0x32, 0x00),
            (0x00, 0x00),
            (0x04, 0xAF),
            (0x02, 0x9E),
            (0x20, 0x90),
            (0x21, 0x90),
            (0x1A, 0x00),
            (0x1B, 0x00),
        ]
    );
    assert_eq!(codec.initialize(BusOutcome::Done), CodecAction::Ready);
}

#[test]
fn codec_rejects_wrong_chip() {
    let mut codec = CS43L22::new();
    codec.initialize(BusOutcome::Done);
    codec.initialize(BusOutcome::Done);
    assert_eq!(
        codec.initialize(BusOutcome::Read(0x00)),
        CodecAction::Failed(CodecFault::WrongChipId)
    );
    assert_eq!(
        codec.initialize(BusOutcome::Done),
        CodecAction::Failed(CodecFault::WrongChipId)
    );
}

#[test]
fn codec_unreadable_chip() {
    let mut codec = CS43L22::new();
    codec.initialize(BusOutcome::Done);
    codec.initialize(BusOutcome::Done);
    assert_eq!(
        codec.initialize(BusOutcome::Failed),
        CodecAction::Failed(CodecFault::WrongChipId)
    );
}

#[test]
fn codec_write_failure() {
    let mut codec = CS43L22::new();
    codec.initialize(BusOutcome::Done);
    codec.initialize(BusOutcome::Done);
    codec.initialize(BusOutcome::Read(0xE3));
    codec.initialize(BusOutcome::Done);
    assert_eq!(
        codec.initialize(BusOutcome::Failed),
        CodecAction::Failed(CodecFault::BusError)
    );
    assert_eq!(
        codec.initialize(BusOutcome::Done),
        CodecAction::Failed(CodecFault::BusError)
    );
}
