//! The values that flow through the pipeline: timestamped sample frames,
//! pitch estimates, and per-band energy vectors.
//!
//! Every message type implements [`Message`], which hands the bus an
//! independent copy carrying the same view; consumers therefore never
//! share mutable data.

use vstd::prelude::*;

use crate::ConfigError;

verus! {

/// A value the distribution bus can fan out: it can be duplicated into an
/// independent copy with the same view.
pub trait Message: View + Sized {
    /// An independent copy carrying the same data.
    fn duplicate(&self) -> (r: Self)
        ensures
            r@ == self@,
    ;
}

/// Element-wise copy of a vector of plain values.
pub fn copy_vec<T: Copy>(v: &Vec<T>) -> (r: Vec<T>)
    ensures
        r@ == v@,
{
    let mut r: Vec<T> = Vec::new();
    let mut i: usize = 0;
    while i < v.len()
        invariant
            0 <= i <= v.len(),
            r@ == v@.subrange(0, i as int),
        decreases v.len() - i,
    {
        r.push(v[i]);
        i = i + 1;
    }
    proof {
        assert(r@ =~= v@);
    }
    r
}

/// One fixed-length batch of `(timestamp, amplitude)` pairs captured in a
/// single callback: timestamps in microseconds since stream start,
/// amplitudes at the `AMP_ONE` scale.
pub struct SampleFrame {
    /// The samples, in capture order.
    pub samples: Vec<(u64, i64)>,
}

impl View for SampleFrame {
    type V = Seq<(u64, i64)>;

    open spec fn view(&self) -> Seq<(u64, i64)> {
        self.samples@
    }
}

impl Message for SampleFrame {
    fn duplicate(&self) -> (r: Self)
        ensures
            r@ == self@,
    {
        SampleFrame { samples: copy_vec(&self.samples) }
    }
}

/// The timestamp spacing used when `elapsed` microseconds are divided
/// across `len` samples: at least one, so stamps strictly increase.
pub open spec fn stamp_step(elapsed: nat, len: nat) -> nat {
    if elapsed / len >= 1 {
        elapsed / len
    } else {
        1
    }
}

impl SampleFrame {
    /// Wrap raw samples that already carry their timestamps.
    pub fn from_parts(samples: Vec<(u64, i64)>) -> (r: SampleFrame)
        ensures
            r@ == samples@,
    {
        SampleFrame { samples }
    }

    /// Wrap one callback's amplitudes, spreading the elapsed time since
    /// the previous callback evenly across the samples: sample `i` is
    /// stamped `base + (i + 1) * step` with `step = max(1, elapsed / len)`.
    pub fn from_samples(base: u64, elapsed: u64, amps: &Vec<i64>) -> (r: Result<
        SampleFrame,
        ConfigError,
    >)
        ensures
            r is Ok <==> amps@.len() >= 1 && base + amps@.len() * stamp_step(
                elapsed as nat,
                amps@.len(),
            ) <= u64::MAX,
            r matches Ok(f) ==> {
                &&& f@.len() == amps@.len()
                &&& forall|i: int|
                    0 <= i < amps@.len() ==> #[trigger] f@[i] == (
                    (base + (i + 1) * stamp_step(elapsed as nat, amps@.len())) as u64,
                    amps@[i],
                )
            },
            r matches Err(e) ==> e == ConfigError::ZeroFrameLength || e
                == ConfigError::TimeOutOfRange,
            r matches Err(e) && e == ConfigError::ZeroFrameLength <==> amps@.len() == 0,
    {
        let len: usize = amps.len();
        if len == 0 {
            return Err(ConfigError::ZeroFrameLength);
        }
        let raw_step: u64 = elapsed / (len as u64);
        let step: u64 = if raw_step >= 1 {
            raw_step
        } else {
            1
        };
        assert(step == stamp_step(elapsed as nat, amps@.len()));
        proof {
            assert((len as int) * (step as int) < 0x100000000000000000000000000000000)
                by (nonlinear_arith)
                requires
                    len < 0x10000000000000000,
                    step < 0x10000000000000000,
            ;
        }
        let span: u128 = (len as u128) * (step as u128);
        if span > (u64::MAX - base) as u128 {
            proof {
                assert((len as int) * (step as int) == amps@.len() * stamp_step(
                    elapsed as nat,
                    amps@.len(),
                ));
            }
            return Err(ConfigError::TimeOutOfRange);
        }
        let mut samples: Vec<(u64, i64)> = Vec::new();
        let mut i: usize = 0;
        while i < len
            invariant
                0 <= i <= len,
                len == amps@.len(),
                samples@.len() == i,
                step >= 1,
                base + (len as int) * (step as int) <= u64::MAX,
                forall|j: int|
                    0 <= j < i ==> #[trigger] samples@[j] == (
                    (base + (j + 1) * (step as int)) as u64,
                    amps@[j],
                ),
            decreases len - i,
        {
            proof {
                assert((i + 1) * (step as int) <= (len as int) * (step as int))
                    by (nonlinear_arith)
                    requires
                        i + 1 <= len,
                        step >= 1,
                ;
                assert(1 * (step as int) <= (i + 1) * (step as int)) by (nonlinear_arith)
                    requires
                        i >= 0,
                        step >= 1,
                ;
            }
            let t: u64 = base + ((i as u64) + 1) * step;
            samples.push((t, amps[i]));
            i = i + 1;
        }
        Ok(SampleFrame { samples })
    }
}

/// One pitch estimate: the source timestamp, the estimated fundamental at
/// the `AMP_ONE` scale (0 for a silent window), whether the window is
/// voiced, and the supporting band energy.
#[derive(Clone, Copy, Debug, PartialEq, Eq, Structural)]
pub struct PitchEstimate {
    /// Timestamp of the analysis window's first sample, in microseconds.
    pub timestamp: u64,
    /// The estimated fundamental frequency at the `AMP_ONE` scale; zero
    /// when the window is silent relative to the noise floor.
    pub frequency: u64,
    /// Whether the window carries a detectable pitched tone.
    pub voiced: bool,
    /// The raw energy of the chosen band.
    pub strength: u64,
}

impl View for PitchEstimate {
    type V = PitchEstimate;

    open spec fn view(&self) -> PitchEstimate {
        *self
    }
}

impl Message for PitchEstimate {
    fn duplicate(&self) -> (r: Self)
        ensures
            r@ == self@,
    {
        *self
    }
}

/// The per-band energy vector produced alongside each pitch estimate.
pub struct SpectralVector {
    /// One energy per band, lowest band first.
    pub energies: Vec<u64>,
}

impl View for SpectralVector {
    type V = Seq<u64>;

    open spec fn view(&self) -> Seq<u64> {
        self.energies@
    }
}

impl Message for SpectralVector {
    fn duplicate(&self) -> (r: Self)
        ensures
            r@ == self@,
    {
        SpectralVector { energies: copy_vec(&self.energies) }
    }
}

} // verus!
