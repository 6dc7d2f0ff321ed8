use synth::melody::{Melody, Note, Pitch};
use synth::mixer::Mixer;
use synth::sequencer::{mix, render, GeneratorType, Sequencer};

#[test]
fn mixer_weighted_sum() {
    let m = Mixer::new().add(1000, 140).add(-500, 110);
    assert_eq!(m.total_weight(), 250);
    assert_eq!(m.finish(250), 340);
}

#[test]
fn mixer_full_scale_stays_in_range() {
    assert_eq!(Mixer::new().add(32767, 140).add(32767, 110).finish(250), 32767);
    assert_eq!(Mixer::new().add(-32768, 140).add(-32768, 110).finish(250), -32768);
}

#[test]
fn mixer_rounds_toward_zero() {
    assert_eq!(Mixer::new().add(-1, 1).finish(2), 0);
    assert_eq!(Mixer::new().add(-3, 1).finish(2), -1);
    assert_eq!(Mixer::new().add(3, 1).finish(2), 1);
}

#[test]
fn mixer_is_additive() {
    let both = Mixer::new().add(300, 10).add(-700, 20).finish(100);
    let swapped = Mixer::new().add(-700, 20).add(300, 10).finish(100);
    assert_eq!(both, swapped);
    assert_eq!(both, (300 * 10 - 700 * 20) / 100);
}

#[test]
fn empty_mixer_is_silent() {
    assert_eq!(Mixer::new().finish(1), 0);
}

#[test]
fn sequencer_rest_is_silent() {
    let notes = [Note::QuarterRest];
    let melody = Melody::with_sample_rate(&notes, 30, 1000);
    let mut seq = Sequencer::new(melody, GeneratorType::Square, 10, 10, 200, 10);
    for _ in 0..5000 {
        assert_eq!(seq.next(), 0);
    }
}

#[test]
fn sequencer_plays_then_falls_quiet() {
    let notes = [Note::Eighth(Pitch::A4)];
    let melody = Melody::with_sample_rate(&notes, 30, 1000);
    let mut seq = Sequencer::new(melody, GeneratorType::Square, 0, 0, 255, 0);
    let out: Vec<i16> = (0..1001).map(|_| seq.next()).collect();
    assert_eq!(out[0], -32768);
    assert_eq!(out[1], 32766);
    assert_eq!(out[2], -32768);
    assert_eq!(out[219], 0);
    assert!(out[220..1000].iter().all(|s| *s == 0));
    assert_eq!(out[1000], -32768);
}

#[test]
fn sequencer_sawtooth_ramp() {
    let notes = [Note::Eighth(Pitch::A3)];
    let melody = Melody::with_sample_rate(&notes, 30, 48000);
    let mut seq = Sequencer::new(melody, GeneratorType::Sawtooth, 0, 0, 255, 0);
    assert_eq!(seq.next(), -32468);
    assert_eq!(seq.next(), -32168);
}

#[test]
fn mix_weights_two_voices() {
    let lead_notes = [Note::Eighth(Pitch::A4)];
    let bass_notes = [Note::WholeRest];
    let mut lead = Sequencer::new(
        Melody::with_sample_rate(&lead_notes, 30, 1000),
        GeneratorType::Square,
        0,
        0,
        255,
        0,
    );
    let mut bass = Sequencer::new(
        Melody::with_sample_rate(&bass_notes, 30, 1000),
        GeneratorType::Sawtooth,
        0,
        0,
        255,
        0,
    );
    assert_eq!(mix(&mut lead, &mut bass), -18350);
    assert_eq!(mix(&mut lead, &mut bass), 18348);
}

#[test]
fn render_matches_repeated_mix() {
    let lead_notes = [Note::Eighth(Pitch::A4), Note::Quarter(Pitch::C5)];
    let bass_notes = [Note::Quarter(Pitch::A2), Note::Quarter(Pitch::E2)];
    let make = || {
        (
            Sequencer::new(
                Melody::new(&lead_notes, 210),
                GeneratorType::Square,
                60,
                60,
                127,
                10,
            ),
            Sequencer::new(
                Melody::new(&bass_notes, 210),
                GeneratorType::Sawtooth,
                10,
                60,
                200,
                20,
            ),
        )
    };
    let (mut lead_a, mut bass_a) = make();
    let (mut lead_b, mut bass_b) = make();
    let mut block = [0i16; 5000];
    render(&mut lead_a, &mut bass_a, &mut block);
    for sample in block.iter() {
        assert_eq!(*sample, mix(&mut lead_b, &mut bass_b));
    }
    assert_eq!(mix(&mut lead_a, &mut bass_a), mix(&mut lead_b, &mut bass_b));
}
