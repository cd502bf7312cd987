//! The pitch estimation stage: a rolling analysis window of the last few
//! frames, fed to the Goertzel filter bank once per incoming frame.
//!
//! Each step slides one frame's worth of amplitudes into the window,
//! refreshes every band's energy, and derives one `PitchEstimate` and one
//! `SpectralVector`, both stamped with the window's first timestamp.

use vstd::prelude::*;

use crate::frame::PitchEstimate;
use crate::frame::SampleFrame;
use crate::frame::SpectralVector;
use crate::goertzel::band_energy;
use crate::goertzel::estimate_spec;
use crate::goertzel::GoertzelEstimator;
use crate::goertzel::MAX_BANDS;
use crate::notes::ladder_buildable;
use crate::notes::nth_step;
use crate::ConfigError;

verus! {

/// The longest supported analysis window, in samples.
pub const MAX_WINDOW: usize = 16777216;

/// The amplitudes of a frame's samples, in order.
pub open spec fn frame_amplitudes(s: Seq<(u64, i64)>) -> Seq<i64> {
    Seq::new(s.len(), |i: int| s[i].1)
}

/// The estimation stage: rolling window, frame timestamps, and the
/// filter bank, plus the clarity threshold for the voicing flag.
pub struct PitchEstimator {
    window: Vec<i64>,
    times: Vec<u64>,
    frame_len: usize,
    clarity: u64,
    predictor: GoertzelEstimator,
}

impl PitchEstimator {
    /// The analysis window's amplitudes, oldest first.
    pub closed spec fn window_view(&self) -> Seq<i64> {
        self.window@
    }

    /// The first timestamp of each windowed frame, oldest first.
    pub closed spec fn times_view(&self) -> Seq<u64> {
        self.times@
    }

    /// The configured frame length.
    pub closed spec fn frame_length(&self) -> nat {
        self.frame_len as nat
    }

    /// The clarity threshold: a window is voiced when the chosen band's
    /// energy strictly exceeds it.
    pub closed spec fn clarity_threshold(&self) -> u64 {
        self.clarity
    }

    /// The filter bank this stage runs.
    pub closed spec fn bank(&self) -> GoertzelEstimator {
        self.predictor
    }

    /// A valid stage: a valid bank, a nonempty window of whole frames,
    /// and one timestamp slot per windowed frame.
    pub closed spec fn wf(&self) -> bool {
        &&& self.predictor.wf()
        &&& self.frame_len >= 1
        &&& self.window@.len() >= 1
        &&& self.window@.len() == self.frame_len * self.times@.len()
        &&& self.times@.len() >= 1
    }

    /// Build the stage: `frames` frames of `frame_len` samples roll
    /// through the window, which starts silent (all zero), and the bank
    /// is validated fail-fast.
    pub fn new(
        min_freq: u64,
        srate: u64,
        bands: usize,
        noise_thresh: u64,
        clarity: u64,
        frame_len: usize,
        frames: usize,
    ) -> (r: Result<PitchEstimator, ConfigError>)
        ensures
            r is Ok <==> (frame_len >= 1 && frames >= 1 && frame_len * frames <= MAX_WINDOW
                && srate >= 1 && 1 <= bands <= MAX_BANDS && ladder_buildable(
                min_freq as nat,
                bands as nat,
            )),
            r matches Ok(e) ==> {
                &&& e.wf()
                &&& e.frame_length() == frame_len
                &&& e.clarity_threshold() == clarity
                &&& e.times_view().len() == frames
                &&& e.window_view().len() == frame_len * frames
                &&& forall|i: int|
                    0 <= i < e.window_view().len() ==> #[trigger] e.window_view()[i] == 0
                &&& forall|i: int| 0 <= i < frames ==> #[trigger] e.times_view()[i] == 0
                &&& e.bank().wf()
                &&& e.bank().rate() == srate
                &&& e.bank().noise_floor() == noise_thresh
                &&& e.bank().bands() == bands
                &&& forall|i: int|
                    0 <= i < bands ==> #[trigger] e.bank().freqs()[i] == nth_step(
                        min_freq as nat,
                        i as nat,
                    )
            },
            r == Err::<PitchEstimator, ConfigError>(ConfigError::ZeroFrameLength) <==> frame_len
                == 0,
            r == Err::<PitchEstimator, ConfigError>(ConfigError::ZeroWindowFrames) <==> (frame_len
                >= 1 && frames == 0),
            r == Err::<PitchEstimator, ConfigError>(ConfigError::WindowTooLong) <==> (frame_len
                >= 1 && frames >= 1 && frame_len * frames > MAX_WINDOW),
    {
        if frame_len == 0 {
            return Err(ConfigError::ZeroFrameLength);
        }
        if frames == 0 {
            return Err(ConfigError::ZeroWindowFrames);
        }
        proof {
            assert((frame_len as int) * (frames as int)
                < 340282366920938463463374607431768211455) by (nonlinear_arith)
                requires
                    frame_len < 0x10000000000000000,
                    frames < 0x10000000000000000,
            ;
        }
        let window_len_wide: u128 = (frame_len as u128) * (frames as u128);
        if window_len_wide > MAX_WINDOW as u128 {
            return Err(ConfigError::WindowTooLong);
        }
        let window_len: usize = frame_len * frames;
        let predictor: GoertzelEstimator =
            match GoertzelEstimator::new(min_freq, srate, bands, noise_thresh) {
            Ok(p) => p,
            Err(e) => {
                return Err(e);
            },
        };
        let mut window: Vec<i64> = Vec::new();
        let mut i: usize = 0;
        while i < window_len
            invariant
                0 <= i <= window_len,
                window@.len() == i,
                forall|j: int| 0 <= j < i ==> #[trigger] window@[j] == 0,
            decreases window_len - i,
        {
            window.push(0);
            i = i + 1;
        }
        let mut times: Vec<u64> = Vec::new();
        let mut j: usize = 0;
        while j < frames
            invariant
                0 <= j <= frames,
                times@.len() == j,
                forall|k: int| 0 <= k < j ==> #[trigger] times@[k] == 0,
            decreases frames - j,
        {
            times.push(0);
            j = j + 1;
        }
        proof {
            assert((frame_len as int) * (frames as int) >= 1) by (nonlinear_arith)
                requires
                    frame_len >= 1,
                    frames >= 1,
            ;
        }
        Ok(PitchEstimator { window, times, frame_len, clarity, predictor })
    }

    /// What validity guarantees, for callers that only see `wf` as an
    /// opaque predicate: a valid bank and a window of at least one whole
    /// frame.
    pub proof fn lemma_wf_bounds(&self)
        requires
            self.wf(),
        ensures
            self.bank().wf(),
            self.frame_length() >= 1,
            self.window_view().len() >= 1,
            self.times_view().len() >= 1,
            self.window_view().len() == self.frame_length() * self.times_view().len(),
    {
    }

    /// The configured frame length, for callers that must hand frames
    /// of exactly this length to `step`.
    pub fn frame_len(&self) -> (r: usize)
        ensures
            r == self.frame_length(),
    {
        self.frame_len
    }

    /// Fold one frame into the window and estimate: the oldest frame's
    /// amplitudes slide out, the new frame's slide in, every band's
    /// filter runs over the refreshed window, and the result is the
    /// spectral vector plus a `PitchEstimate` whose voicing flag is
    /// `strength > clarity`, whose frequency is gated to zero whenever
    /// the flag is false, and whose timestamp is the first timestamp of
    /// the oldest frame still in the window.
    pub fn step(&mut self, frame: &SampleFrame) -> (r: (SpectralVector, PitchEstimate))
        requires
            old(self).wf(),
            frame@.len() == old(self).frame_length(),
        ensures
            final(self).wf(),
            final(self).frame_length() == old(self).frame_length(),
            final(self).clarity_threshold() == old(self).clarity_threshold(),
            final(self).bank().freqs() == old(self).bank().freqs(),
            final(self).bank().rate() == old(self).bank().rate(),
            final(self).bank().noise_floor() == old(self).bank().noise_floor(),
            final(self).window_view() == old(self).window_view().subrange(
                old(self).frame_length() as int,
                old(self).window_view().len() as int,
            ) + frame_amplitudes(frame@),
            final(self).times_view() == old(self).times_view().subrange(
                1,
                old(self).times_view().len() as int,
            ).push(frame@[0].0),
            r.0@.len() == old(self).bank().bands(),
            forall|i: int|
                0 <= i < r.0@.len() ==> #[trigger] r.0@[i] == band_energy(
                    final(self).window_view(),
                    old(self).bank().freqs()[i] as nat,
                    old(self).bank().rate() as nat,
                ),
            ({
                let est = estimate_spec(
                    old(self).bank().freqs(),
                    r.0@,
                    old(self).bank().noise_floor(),
                );
                &&& r.1.voiced == (est.1 > old(self).clarity_threshold())
                &&& r.1.frequency == (if est.1 > old(self).clarity_threshold() {
                    est.0
                } else {
                    0u64
                })
                &&& r.1.strength == est.1
                &&& r.1.timestamp == final(self).times_view()[0]
            }),
    {
        let flen: usize = self.frame_len;
        let n: usize = self.window.len();
        let mut w: Vec<i64> = Vec::new();
        let mut i: usize = flen;
        proof {
            assert(self.frame_len * self.times@.len() >= self.frame_len * 1) by (nonlinear_arith)
                requires
                    self.times@.len() >= 1,
                    self.frame_len >= 0,
            ;
        }
        while i < n
            invariant
                flen <= i <= n,
                n == self.window@.len(),
                w@ == self.window@.subrange(flen as int, i as int),
            decreases n - i,
        {
            let x: i64 = self.window[i];
            w.push(x);
            proof {
                assert(w@ =~= self.window@.subrange(flen as int, i as int + 1));
            }
            i = i + 1;
        }
        let fl: usize = frame.samples.len();
        let mut j: usize = 0;
        while j < fl
            invariant
                0 <= j <= fl,
                fl == frame@.len(),
                n == self.window@.len(),
                flen <= n,
                w@ == self.window@.subrange(flen as int, n as int) + frame_amplitudes(
                    frame@,
                ).subrange(0, j as int),
            decreases fl - j,
        {
            let a: i64 = frame.samples[j].1;
            w.push(a);
            proof {
                assert(w@ =~= self.window@.subrange(flen as int, n as int) + frame_amplitudes(
                    frame@,
                ).subrange(0, j as int + 1));
            }
            j = j + 1;
        }
        proof {
            assert(frame_amplitudes(frame@).subrange(0, fl as int) =~= frame_amplitudes(frame@));
        }
        let tcount: usize = self.times.len();
        let mut ts: Vec<u64> = Vec::new();
        let mut k: usize = 1;
        while k < tcount
            invariant
                1 <= k <= tcount,
                tcount == self.times@.len(),
                ts@ == self.times@.subrange(1, k as int),
            decreases tcount - k,
        {
            let t: u64 = self.times[k];
            ts.push(t);
            proof {
                assert(ts@ =~= self.times@.subrange(1, k as int + 1));
            }
            k = k + 1;
        }
        let first_stamp: u64 = frame.samples[0].0;
        ts.push(first_stamp);
        proof {
            assert(ts@ =~= self.times@.subrange(1, tcount as int).push(frame@[0].0));
        }
        self.window = w;
        self.times = ts;
        self.predictor.process(&self.window);
        let energies: Vec<u64> = self.predictor.spectrum();
        let pitch: (u64, u64) = self.predictor.get_pitch();
        let voiced: bool = pitch.1 > self.clarity;
        let frequency: u64 = if voiced {
            pitch.0
        } else {
            0
        };
        let stamp: u64 = self.times[0];
        let estimate = PitchEstimate { timestamp: stamp, frequency, voiced, strength: pitch.1 };
        (SpectralVector { energies }, estimate)
    }
}

} // verus!
