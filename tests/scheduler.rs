use synth::melody::{spacings, Melody, Note, Pitch};

#[test]
fn single_note_schedule() {
    let notes = [Note::Eighth(Pitch::A4)];
    let mut melody = Melody::with_sample_rate(&notes, 30, 100);
    assert_eq!(melody.on_spacing(), 90);
    assert_eq!(melody.next_sample(), (true, Some(Pitch::A4)));
    for _ in 1..90 {
        assert_eq!(melody.next_sample(), (false, None));
    }
    assert_eq!(melody.next_sample(), (true, None));
    for _ in 91..100 {
        assert_eq!(melody.next_sample(), (false, None));
    }
    assert_eq!(melody.next_sample(), (true, Some(Pitch::A4)));
}

#[test]
fn spacings_split_the_eighth() {
    assert_eq!(spacings(100, 30), (90, 10));
    assert_eq!(spacings(48000, 210), (6172, 685));
}

#[test]
fn schedule_repeats_every_cycle() {
    let notes = [
        Note::Eighth(Pitch::A4),
        Note::QuarterRest,
        Note::Quarter(Pitch::C5),
        Note::Half(Pitch::E3),
    ];
    let mut melody = Melody::with_sample_rate(&notes, 30, 100);
    let cycle = 100 * (1 + 2 + 2 + 4);
    let first: Vec<(bool, Option<Pitch>)> = (0..cycle).map(|_| melody.next_sample()).collect();
    for _ in 0..3 {
        let again: Vec<(bool, Option<Pitch>)> = (0..cycle).map(|_| melody.next_sample()).collect();
        assert_eq!(first, again);
    }
    let events: Vec<(usize, (bool, Option<Pitch>))> =
        first.iter().cloned().enumerate().filter(|(_, e)| e.0).collect();
    assert_eq!(
        events,
        vec![
            (0, (true, Some(Pitch::A4))),
            (90, (true, None)),
            (100, (true, None)),
            (280, (true, None)),
            (300, (true, Some(Pitch::C5))),
            (480, (true, None)),
            (500, (true, Some(Pitch::E3))),
            (860, (true, None)),
        ]
    );
}

#[test]
fn next_note_reports_starts_only() {
    let notes = [Note::Eighth(Pitch::A4), Note::EightRest];
    let mut melody = Melody::with_sample_rate(&notes, 30, 100);
    let starts: Vec<(usize, Note)> = (0..400)
        .filter_map(|t| melody.next_note().map(|n| (t, n)))
        .collect();
    assert_eq!(
        starts,
        vec![
            (0, Note::Eighth(Pitch::A4)),
            (100, Note::EightRest),
            (200, Note::Eighth(Pitch::A4)),
            (300, Note::EightRest),
        ]
    );
}

#[test]
fn default_rate_timing() {
    let notes = [Note::Eighth(Pitch::A4)];
    let mut melody = Melody::new(&notes, 210);
    assert_eq!(melody.sample_rate(), 48000);
    assert_eq!(melody.tempo(), 210);
    assert_eq!(melody.on_spacing(), 6172);
    assert_eq!(melody.next_sample(), (true, Some(Pitch::A4)));
    for _ in 1..6172 {
        assert_eq!(melody.next_sample(), (false, None));
    }
    assert_eq!(melody.next_sample(), (true, None));
    for _ in 6173..6857 {
        assert_eq!(melody.next_sample(), (false, None));
    }
    assert_eq!(melody.next_sample(), (true, Some(Pitch::A4)));
}

#[test]
fn durations_and_pitches() {
    assert_eq!(Note::Eighth(Pitch::A4).duration(), 1);
    assert_eq!(Note::EightRest.duration(), 1);
    assert_eq!(Note::Quarter(Pitch::A4).duration(), 2);
    assert_eq!(Note::QuarterRest.duration(), 2);
    assert_eq!(Note::Half(Pitch::A4).duration(), 4);
    assert_eq!(Note::HalfRest.duration(), 4);
    assert_eq!(Note::Whole(Pitch::A4).duration(), 8);
    assert_eq!(Note::WholeRest.duration(), 8);
    assert_eq!(Note::Half(Pitch::Gb4).pitch(), Some(Pitch::Gb4));
    assert_eq!(Note::WholeRest.pitch(), None);
}

#[test]
fn pitch_frequencies() {
    assert_eq!(Pitch::A2.frequency(), 110);
    assert_eq!(Pitch::E2.frequency(), 82);
    assert_eq!(Pitch::A3.frequency(), 220);
    assert_eq!(Pitch::Bb3.frequency(), 233);
    assert_eq!(Pitch::A4.frequency(), 440);
    assert_eq!(Pitch::E5.frequency(), 659);
    assert_eq!(Pitch::A5.frequency(), 880);
}
