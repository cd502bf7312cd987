use pitchline::estimator::PitchEstimator;
use pitchline::frame::SampleFrame;
use pitchline::goertzel::GoertzelEstimator;
use pitchline::ConfigError;

fn err_of<T>(r: Result<T, ConfigError>) -> ConfigError {
    match r {
        Err(e) => e,
        Ok(_) => panic!("expected an error"),
    }
}


const MIN_FREQ: u64 = 1350041; // 20.6 Hz at the 2^16 scale
const SRATE: u64 = 48000;
const BANDS: usize = 48;
const NOISE: u64 = 65536; // energy 1.0
const CLARITY: u64 = 13107; // 0.2 at the 2^16 scale
const BAND_41_FREQ: u64 = 14416630; // about 219.98 Hz
const BAND_29_FREQ: u64 = 7208320; // about 109.99 Hz

fn sine(freq_hz: f64, amp: f64, len: usize) -> Vec<i64> {
    let mut out = Vec::with_capacity(len);
    for t in 0..len {
        let x = 2.0 * std::f64::consts::PI * freq_hz * (t as f64) / (SRATE as f64);
        out.push((amp * 65536.0 * x.sin()) as i64);
    }
    out
}

fn argmax(v: &[u64]) -> usize {
    let mut best = 0usize;
    for i in 0..v.len() {
        if v[i] > v[best] {
            best = i;
        }
    }
    best
}

#[test]
fn silent_buffer_is_unvoiced() {
    let mut bank = GoertzelEstimator::new(MIN_FREQ, SRATE, BANDS, NOISE).unwrap();
    let silence: Vec<i64> = vec![0; 4096];
    bank.process(&silence);
    assert_eq!(bank.get_pitch(), (0, 0));
    for e in bank.spectrum() {
        assert_eq!(e, 0);
    }
}

#[test]
fn silent_frames_yield_unvoiced_estimate() {
    let mut stage = PitchEstimator::new(MIN_FREQ, SRATE, BANDS, NOISE, CLARITY, 882, 2).unwrap();
    let frame = SampleFrame::from_parts(vec![(1, 0); 882]);
    let (_, est) = stage.step(&frame);
    assert!(!est.voiced);
    assert_eq!(est.frequency, 0);
    assert_eq!(est.strength, 0);
}

#[test]
fn sine_at_band_center_wins_its_band() {
    // A clean sine at band 41's center frequency: that band is the
    // argmax and its energy clears the noise floor.
    let mut bank = GoertzelEstimator::new(MIN_FREQ, SRATE, BANDS, NOISE).unwrap();
    let buf = sine(219.98031616210938, 0.999, 14112);
    bank.process(&buf);
    let spectrum = bank.spectrum();
    assert_eq!(argmax(&spectrum), 41);
    assert!(spectrum[41] > NOISE);
    let (freq, strength) = bank.get_pitch();
    assert_eq!(freq, BAND_41_FREQ);
    assert!(strength > NOISE);
}

#[test]
fn octave_error_corrected_to_subharmonic() {
    // The strongest band sits twelve semitones above a band carrying
    // well over a twentieth of the total energy: the lower band is the
    // reported fundamental.
    let mut bank = GoertzelEstimator::new(MIN_FREQ, SRATE, BANDS, NOISE).unwrap();
    let mut buf: Vec<i64> = Vec::with_capacity(14112);
    for t in 0..14112 {
        let ph = 2.0 * std::f64::consts::PI * (t as f64) / (SRATE as f64);
        let v = 0.8 * (ph * 220.0).sin() + 0.3 * (ph * 110.0).sin();
        buf.push((v * 65536.0) as i64);
    }
    bank.process(&buf);
    let spectrum = bank.spectrum();
    assert_eq!(argmax(&spectrum), 41);
    let (freq, strength) = bank.get_pitch();
    assert_eq!(freq, BAND_29_FREQ);
    assert_eq!(strength, spectrum[29]);
}

#[test]
fn end_to_end_220hz_sine() {
    // The full scenario: 32 concatenated frames of 882 samples of a pure
    // 220 Hz sine at amplitude 0.5 resolve within one band step of
    // 220 Hz, voiced.
    let mut bank = GoertzelEstimator::new(MIN_FREQ, SRATE, BANDS, NOISE).unwrap();
    let buf = sine(220.0, 0.5, 32 * 882);
    bank.process(&buf);
    let (freq, strength) = bank.get_pitch();
    assert_eq!(freq, BAND_41_FREQ);
    let voiced = strength > CLARITY;
    assert!(voiced);
}

#[test]
fn stage_tracks_sine_across_frames() {
    let frames = 8usize;
    let frame_len = 882usize;
    let mut stage =
        PitchEstimator::new(MIN_FREQ, SRATE, BANDS, NOISE, CLARITY, frame_len, frames).unwrap();
    assert_eq!(stage.frame_len(), frame_len);
    let all = sine(220.0, 0.5, frames * frame_len);
    let mut last = None;
    for fi in 0..frames {
        let mut samples: Vec<(u64, i64)> = Vec::with_capacity(frame_len);
        for j in 0..frame_len {
            let t = (fi * frame_len + j + 1) as u64;
            samples.push((t, all[fi * frame_len + j]));
        }
        let frame = SampleFrame::from_parts(samples);
        last = Some(stage.step(&frame));
    }
    let (spectrum, est) = last.unwrap();
    assert_eq!(spectrum.energies.len(), BANDS);
    assert_eq!(est.frequency, BAND_41_FREQ);
    assert!(est.voiced);
    // The estimate is stamped with the oldest windowed frame's first
    // timestamp: frame 0 starts at 1.
    assert_eq!(est.timestamp, 1);
}

#[test]
fn bank_config_errors() {
    assert_eq!(
        err_of(GoertzelEstimator::new(MIN_FREQ, 0, BANDS, NOISE)),
        ConfigError::ZeroSampleRate
    );
    assert_eq!(
        err_of(GoertzelEstimator::new(MIN_FREQ, SRATE, 0, NOISE)),
        ConfigError::ZeroBands
    );
    assert_eq!(
        err_of(GoertzelEstimator::new(MIN_FREQ, SRATE, 5000, NOISE)),
        ConfigError::TooManyBands
    );
    // A zero noise floor is a valid configuration: silence still gates
    // to the sentinel because the comparison is inclusive.
    assert!(GoertzelEstimator::new(MIN_FREQ, SRATE, BANDS, 0).is_ok());
    assert_eq!(
        err_of(GoertzelEstimator::new(0, SRATE, BANDS, NOISE)),
        ConfigError::FrequencyOutOfRange
    );
}

#[test]
fn unvoiced_estimate_reports_zero_frequency() {
    // A strong tone whose strength still falls short of the clarity
    // threshold is unvoiced, and an unvoiced estimate always carries
    // frequency zero, even though a band cleared the noise floor.
    let mut stage =
        PitchEstimator::new(MIN_FREQ, SRATE, BANDS, NOISE, u64::MAX, 882, 2).unwrap();
    let all = sine(220.0, 0.9, 2 * 882);
    for fi in 0..2 {
        let mut samples: Vec<(u64, i64)> = Vec::with_capacity(882);
        for j in 0..882 {
            samples.push(((fi * 882 + j + 1) as u64, all[fi * 882 + j]));
        }
        let (_, est) = stage.step(&SampleFrame::from_parts(samples));
        assert!(!est.voiced);
        assert_eq!(est.frequency, 0);
    }
}

#[test]
fn stage_config_errors() {
    assert_eq!(
        err_of(PitchEstimator::new(MIN_FREQ, SRATE, BANDS, NOISE, CLARITY, 0, 2)),
        ConfigError::ZeroFrameLength
    );
    assert_eq!(
        err_of(PitchEstimator::new(MIN_FREQ, SRATE, BANDS, NOISE, CLARITY, 882, 0)),
        ConfigError::ZeroWindowFrames
    );
    assert_eq!(
        err_of(PitchEstimator::new(MIN_FREQ, SRATE, BANDS, NOISE, CLARITY, 1 << 13, 1 << 13)),
        ConfigError::WindowTooLong
    );
}
