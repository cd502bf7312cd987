use pitchline::contour::ContourHistory;
use pitchline::frame::Message;
use pitchline::frame::PitchEstimate;
use pitchline::frame::SampleFrame;
use pitchline::frame::SpectralVector;
use pitchline::ConfigError;

fn err_of<T>(r: Result<T, ConfigError>) -> ConfigError {
    match r {
        Err(e) => e,
        Ok(_) => panic!("expected an error"),
    }
}

#[test]
fn frame_spreads_elapsed_time_across_samples() {
    let amps: Vec<i64> = vec![5, -5, 7, -7, 9];
    let frame = SampleFrame::from_samples(100, 10, &amps).unwrap();
    let want: Vec<(u64, i64)> = vec![(102, 5), (104, -5), (106, 7), (108, -7), (110, 9)];
    assert_eq!(frame.samples, want);
}

#[test]
fn frame_step_is_at_least_one() {
    // Elapsed time shorter than the frame still yields strictly
    // increasing timestamps.
    let amps: Vec<i64> = vec![1, 2, 3, 4, 5];
    let frame = SampleFrame::from_samples(100, 2, &amps).unwrap();
    let stamps: Vec<u64> = frame.samples.iter().map(|p| p.0).collect();
    assert_eq!(stamps, vec![101, 102, 103, 104, 105]);
}

#[test]
fn frame_build_errors() {
    let empty: Vec<i64> = Vec::new();
    assert_eq!(err_of(SampleFrame::from_samples(0, 10, &empty)), ConfigError::ZeroFrameLength);
    let amps: Vec<i64> = vec![1, 2, 3, 4, 5];
    assert_eq!(
        err_of(SampleFrame::from_samples(u64::MAX - 2, 5, &amps)),
        ConfigError::TimeOutOfRange
    );
}

#[test]
fn messages_duplicate_their_contents() {
    let frame = SampleFrame::from_parts(vec![(1, 10), (2, -20)]);
    let copy = frame.duplicate();
    assert_eq!(copy.samples, frame.samples);
    let vector = SpectralVector { energies: vec![3, 1, 4, 1, 5] };
    let vcopy = vector.duplicate();
    assert_eq!(vcopy.energies, vector.energies);
    let est = PitchEstimate { timestamp: 9, frequency: 8, voiced: true, strength: 7 };
    assert_eq!(est.duplicate(), est);
}

#[test]
fn contour_gates_unvoiced_to_zero() {
    let mut h = ContourHistory::new(4).unwrap();
    h.record(&PitchEstimate { timestamp: 1, frequency: 100, voiced: true, strength: 5 });
    h.record(&PitchEstimate { timestamp: 2, frequency: 500, voiced: false, strength: 0 });
    assert_eq!(h.snapshot(), vec![(1, 100), (2, 0)]);
}

#[test]
fn contour_retires_oldest_at_capacity() {
    let mut h = ContourHistory::new(2).unwrap();
    for t in 1..4u64 {
        h.record(&PitchEstimate { timestamp: t, frequency: t * 10, voiced: true, strength: 1 });
    }
    assert_eq!(h.snapshot(), vec![(2, 20), (3, 30)]);
}

#[test]
fn contour_zero_capacity_is_refused() {
    assert_eq!(err_of(ContourHistory::new(0)), ConfigError::ZeroCapacity);
}
