use pitchline::emitter::note_change_messages;
use pitchline::emitter::note_swap;
use pitchline::emitter::NoteEventEmitter;
use pitchline::emitter::NoteTransition;
use pitchline::frame::PitchEstimate;
use pitchline::notes::NoteScale;
use pitchline::ConfigError;

fn err_of<T>(r: Result<T, ConfigError>) -> ConfigError {
    match r {
        Err(e) => e,
        Ok(_) => panic!("expected an error"),
    }
}


fn est(t: u64, freq_hz: u64, voiced: bool) -> PitchEstimate {
    PitchEstimate { timestamp: t, frequency: freq_hz * 65536, voiced, strength: 65536 }
}

#[test]
fn ramp_emits_single_transition_at_boundary() {
    // A fixed ramp of frequencies at smoothing length 3: one onset
    // transition when the first sound arrives, then exactly one
    // transition (69 -> 70) as the smoothed value crosses the semitone
    // boundary, and none while it stays within one semitone.
    let scale = NoteScale::new().unwrap();
    let mut emitter = NoteEventEmitter::new(scale, 3).unwrap();
    let ramp: [u64; 6] = [440, 440, 440, 466, 466, 466];
    let mut events: Vec<(usize, NoteTransition)> = Vec::new();
    for (i, hz) in ramp.iter().enumerate() {
        if let Some(tr) = emitter.on_estimate(&est(i as u64, *hz, true)) {
            events.push((i, tr));
        }
    }
    assert_eq!(events.len(), 2);
    assert_eq!(events[0], (0, NoteTransition { previous: 0, new_note: 69 }));
    assert_eq!(events[1], (4, NoteTransition { previous: 69, new_note: 70 }));
}

#[test]
fn smoothing_window_drops_oldest() {
    // With capacity 2, a third estimate must evict the first: the mean
    // of [440, 880] is 660 Hz (note 76), not the three-value mean
    // 586.7 Hz (note 74).
    let scale = NoteScale::new().unwrap();
    let mut emitter = NoteEventEmitter::new(scale, 2).unwrap();
    emitter.on_estimate(&est(0, 440, true));
    emitter.on_estimate(&est(1, 440, true));
    let tr = emitter.on_estimate(&est(2, 880, true)).expect("note must change");
    assert_eq!(tr, NoteTransition { previous: 69, new_note: 76 });
}

#[test]
fn unvoiced_estimates_push_zero_frequency() {
    // The raw frequency is pushed regardless of voicing; an unvoiced
    // estimate carries zero, so a single-slot window falls to note 0.
    let scale = NoteScale::new().unwrap();
    let mut emitter = NoteEventEmitter::new(scale, 1).unwrap();
    let up = emitter.on_estimate(&est(0, 440, true)).unwrap();
    assert_eq!(up.new_note, 69);
    let down = emitter.on_estimate(&PitchEstimate {
        timestamp: 1,
        frequency: 0,
        voiced: false,
        strength: 0,
    });
    assert_eq!(down, Some(NoteTransition { previous: 69, new_note: 0 }));
}

#[test]
fn steady_stream_emits_nothing_after_onset() {
    let scale = NoteScale::new().unwrap();
    let mut emitter = NoteEventEmitter::new(scale, 4).unwrap();
    assert!(emitter.on_estimate(&est(0, 440, true)).is_some());
    for t in 1..20u64 {
        assert_eq!(emitter.on_estimate(&est(t, 440, true)), None);
    }
}

#[test]
fn note_wire_bytes() {
    // The encoded wire form of note starts and stops, through midly.
    assert_eq!(note_swap(0, 69, true), vec![0x90, 69, 127]);
    assert_eq!(note_swap(0, 69, false), vec![0x90, 69, 0]);
    assert_eq!(note_swap(3, 60, true), vec![0x93, 60, 127]);
    let (off, on) = note_change_messages(&NoteTransition { previous: 69, new_note: 70 });
    assert_eq!(off, vec![0x90, 69, 0]);
    assert_eq!(on, vec![0x90, 70, 127]);
}

#[test]
fn emitter_config_errors() {
    let scale = NoteScale::new().unwrap();
    assert_eq!(err_of(NoteEventEmitter::new(scale, 0)), ConfigError::ZeroSmoothing);
    let scale2 = NoteScale::new().unwrap();
    assert_eq!(err_of(NoteEventEmitter::new(scale2, 5000)), ConfigError::SmoothingTooLong);
}
