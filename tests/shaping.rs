use synth::quantize::Quantized;
use synth::waves::{SquareWaveGenerator, WaveGenerable};

#[test]
fn quantizer_of_zero_is_exhausted() {
    let mut q = Quantized::new(WaveGenerable::Silence, 0);
    assert_eq!(q.remaining(), 0);
    assert_eq!(q.next(), None);
    assert_eq!(q.next(), None);
}

#[test]
fn quantizer_emits_exactly_its_limit() {
    let mut q = Quantized::new(WaveGenerable::Square(SquareWaveGenerator::new(48000, 440)), 3);
    assert_eq!(q.next(), Some(0));
    assert_eq!(q.next(), Some(0));
    assert_eq!(q.next(), Some(0));
    assert_eq!(q.remaining(), 0);
    for _ in 0..5 {
        assert_eq!(q.next(), None);
    }
}

#[test]
fn quantized_length_follows_tempo() {
    let q = WaveGenerable::Silence.quantize(48000, 210, 1, 220);
    assert_eq!(q.remaining(), 6172);
    let q = WaveGenerable::Silence.quantize(48000, 210, 2, 220);
    assert_eq!(q.remaining(), 10560);
    let q = WaveGenerable::Silence.quantize(1000, 30, 1, 2000);
    assert_eq!(q.remaining(), 900);
}

#[test]
fn quantized_length_capped_by_ceiling() {
    let q = WaveGenerable::Silence.quantize(48000, 30, 1, 220);
    assert_eq!(q.remaining(), 220 * 48);
    let q = WaveGenerable::Silence.quantize(48000, 30, 1, 0);
    assert_eq!(q.remaining(), 0);
}

#[test]
fn envelope_shapes_each_phase() {
    let square = WaveGenerable::Square(SquareWaveGenerator::new(1000, 500));
    let mut voice = square.quantize(1000, 30, 1, 10).envelope(1000, 2, 2, 128, 3);
    let expected: [u16; 10] =
        [32768, 16449, 65534, 8096, 49215, 16320, 49215, 21846, 38164, 32768];
    for e in expected.iter() {
        assert_eq!(voice.next(), Some(*e));
    }
    assert_eq!(voice.next(), None);
    assert_eq!(voice.next(), None);
}

#[test]
fn envelope_compresses_into_short_note() {
    let square = WaveGenerable::Square(SquareWaveGenerator::new(48000, 440));
    let mut voice = square.quantize(48000, 210, 1, 220).envelope(48000, 60, 60, 127, 10);
    let mut count = 0;
    let mut last = None;
    while let Some(sample) = voice.next() {
        count += 1;
        last = Some(sample);
    }
    assert_eq!(count, 6172);
    assert_eq!(last, Some(32768));
    assert_eq!(voice.next(), None);
}

#[test]
fn envelope_over_empty_note() {
    let mut voice = WaveGenerable::Silence.quantize(48000, 210, 1, 0).envelope(48000, 1, 1, 1, 1);
    assert_eq!(voice.next(), None);
}

#[test]
fn envelope_ends_silent_without_release() {
    let square = WaveGenerable::Square(SquareWaveGenerator::new(1000, 500));
    let mut voice = square.quantize(1000, 30, 1, 4).envelope(1000, 0, 0, 255, 0);
    assert_eq!(voice.next(), Some(65534));
    assert_eq!(voice.next(), Some(0));
    assert_eq!(voice.next(), Some(65534));
    assert_eq!(voice.next(), Some(32768));
    assert_eq!(voice.next(), None);
}
