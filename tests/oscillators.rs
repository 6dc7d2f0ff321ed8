use synth::waves::{
    noise_sample, SawtoothWaveGenerator, SquareWaveGenerator, WaveGenerable, SILENCE_LEVEL,
};

#[test]
fn square_advancement_at_440_hz() {
    let square = SquareWaveGenerator::new(48000, 440);
    assert_eq!(square.advancement(), 600);
    assert_eq!(square.position(), 0);
}

#[test]
fn square_crosses_half_range() {
    let mut square = SquareWaveGenerator::new(48000, 440);
    let mut last = 0;
    for _ in 0..54 {
        last = square.next();
    }
    assert_eq!(square.position(), 32400);
    assert_eq!(last, 0);
    let crossing = square.next();
    assert_eq!(square.position(), 33000);
    assert_eq!(crossing, 65534);
    assert_eq!(square.next(), 65534);
    assert_eq!(square.position(), 33600);
}

#[test]
fn phase_wraps_modulo_range() {
    let mut saw = SawtoothWaveGenerator::new(48000, 440);
    for k in 1..=1000u32 {
        let out = saw.next();
        let expected = ((600 * k) % 65536) as u16;
        assert_eq!(saw.position(), expected);
        assert_eq!(out, expected);
    }
}

#[test]
fn advancement_truncates_to_sixteen_bits() {
    let square = SquareWaveGenerator::new(1000, 1500);
    assert_eq!(square.advancement(), ((1500u64 * 65536 / 1000) % 65536) as u16);
}

#[test]
fn sawtooth_is_the_phase() {
    let mut saw = SawtoothWaveGenerator::new(48000, 220);
    assert_eq!(saw.advancement(), 300);
    assert_eq!(saw.next(), 300);
    assert_eq!(saw.next(), 600);
}

#[test]
fn silence_is_middle_of_range() {
    let mut silence = WaveGenerable::Silence;
    for _ in 0..10 {
        assert_eq!(silence.next(), SILENCE_LEVEL);
    }
    assert_eq!(SILENCE_LEVEL, 32767);
}

#[test]
fn sum_type_dispatches() {
    let mut square = WaveGenerable::Square(SquareWaveGenerator::new(48000, 440));
    let mut saw = WaveGenerable::Sawtooth(SawtoothWaveGenerator::new(48000, 440));
    assert_eq!(square.next(), 0);
    assert_eq!(saw.next(), 600);
}

#[test]
fn noise_concatenates_bytes() {
    assert_eq!(noise_sample(0x12, 0x34), 0x1234);
    assert_eq!(noise_sample(0xFF, 0x00), 0xFF00);
    assert_eq!(noise_sample(0x00, 0xFF), 0x00FF);
}
