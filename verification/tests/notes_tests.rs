use pitchline::notes::NoteScale;

const AMP_ONE: f64 = 65536.0;

#[test]
fn note_round_trip_all_notes() {
    // Looking up any note's frequency and quantizing it back returns the
    // same note, across the whole MIDI range.
    let scale = NoteScale::new().unwrap();
    for n in 0..128u8 {
        let f = scale.get_freq(n);
        assert_eq!(scale.get_midi_note(f), n, "note {} did not round-trip", n);
    }
}

#[test]
fn concert_pitch_maps_to_note_69() {
    let scale = NoteScale::new().unwrap();
    // 440 Hz at the 2^16 scale.
    assert_eq!(scale.get_midi_note(440 * 65536), 69);
    // The table's own A4 sits within a whisker of 440 Hz.
    let a4 = scale.get_freq(69);
    assert_eq!(a4, 28835408);
    assert!((a4 as f64 / AMP_ONE - 440.0).abs() < 0.01);
}

#[test]
fn quantization_edges() {
    let scale = NoteScale::new().unwrap();
    // Far below every boundary: note 0.
    assert_eq!(scale.get_midi_note(0), 0);
    assert_eq!(scale.get_freq(0), 535809);
    // Far above every boundary: the top note.
    assert_eq!(scale.get_midi_note(u64::MAX / 2), 127);
}

#[test]
fn band_centers_match_the_logarithmic_formula() {
    // Each equal-tempered band center anchored at 20.6 Hz quantizes to
    // the note the real-valued formula round(12*log2(f/440) + 69) gives.
    let scale = NoteScale::new().unwrap();
    let mut f: u64 = 1350041; // 20.6 Hz at the 2^16 scale
    for _ in 0..48 {
        let hz = f as f64 / AMP_ONE;
        let expected = (12.0 * (hz / 440.0).log2() + 69.0).round() as u8;
        assert_eq!(scale.get_midi_note(f), expected);
        f = ((f as u128 * 1137589835u128) >> 30) as u64;
    }
}
