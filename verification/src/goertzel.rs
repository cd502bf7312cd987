//! The Goertzel filter bank: single-bin resonant filters tuned to
//! equal-tempered semitone bands, an argmax voicing decision, and
//! subharmonic octave-error correction.
//!
//! The recurrence runs over fixed-point amplitudes with a saturating
//! state, so every input of the declared length is valid and no arithmetic
//! can overflow; the published energy is the integer square root of the
//! squared magnitude.

use vstd::prelude::*;

use crate::fixedpoint::clamp_i128;
use crate::fixedpoint::clamp_spec;
use crate::fixedpoint::cos_q30;
use crate::fixedpoint::div_trunc;
use crate::fixedpoint::div_trunc_i128;
use crate::fixedpoint::isqrt;
use crate::fixedpoint::lemma_sqrt_floor_bounds;
use crate::fixedpoint::spec_cos_q30;
use crate::fixedpoint::sqrt_floor;
use crate::fixedpoint::AMP_ONE;
use crate::fixedpoint::TRIG_ONE;
use crate::fixedpoint::TWO_PI_Q30;
use crate::notes::ladder_buildable;
use crate::notes::ladder_wf;
use crate::notes::build_ladder;
use crate::notes::nth_step;
use crate::ConfigError;

verus! {

/// Saturation bound for the recurrence state.
pub const STATE_CAP: i128 = 70368744177664;

/// Saturation bound for the squared magnitude (`STATE_CAP` squared times
/// four, rounded up to a power of two).
pub const MAGSQ_CAP: i128 = 19807040628566084398385987584;

/// No band energy exceeds this: the square root of `MAGSQ_CAP`.
pub const ENERGY_MAX: u64 = 140737488355328;

/// The two-term filter state `(q1, q2)` after the first `n` samples of
/// `xs` have been folded in with coefficient `c` (at the `TRIG_ONE`
/// scale): `q0 = c * q1 - q2 + x`, saturated at `STATE_CAP`.
pub open spec fn goertzel_state(xs: Seq<i64>, c: int, n: nat) -> (int, int)
    decreases n,
{
    if n == 0 {
        (0int, 0int)
    } else {
        let prev = goertzel_state(xs, c, (n - 1) as nat);
        let p = div_trunc(c * prev.0, TRIG_ONE as int);
        let q0 = clamp_spec(p - prev.1 + xs[n - 1], -STATE_CAP as int, STATE_CAP as int);
        (q0, prev.0)
    }
}

/// The squared output magnitude `q1^2 + q2^2 - q1 * q2 * c`, clamped into
/// `[0, MAGSQ_CAP]`.
pub open spec fn goertzel_magsq(xs: Seq<i64>, c: int) -> int {
    let s = goertzel_state(xs, c, xs.len());
    clamp_spec(
        s.0 * s.0 + s.1 * s.1 - div_trunc(s.0 * s.1 * c, TRIG_ONE as int),
        0,
        MAGSQ_CAP as int,
    )
}

/// The whole-number bin nearest to `len * f / sr`, for a target frequency
/// `f` at the `AMP_ONE` scale.
pub open spec fn goertzel_bin(len: nat, f: nat, sr: nat) -> nat {
    (2 * len * f + sr * (AMP_ONE as nat)) / (2 * sr * (AMP_ONE as nat))
}

/// The filter's angular step `2 * pi * bin / len` at the `TRIG_ONE`
/// scale, with the bin folded into one period.
pub open spec fn goertzel_angle(len: nat, f: nat, sr: nat) -> nat {
    ((TWO_PI_Q30 as nat) * (goertzel_bin(len, f, sr) % len)) / len
}

/// The filter coefficient `2 * cos(angle)` at the `TRIG_ONE` scale.
pub open spec fn goertzel_coeff(len: nat, f: nat, sr: nat) -> int {
    2 * spec_cos_q30(goertzel_angle(len, f, sr) as int)
}

/// The energy of `xs` at target frequency `f` (at the `AMP_ONE` scale)
/// for sample rate `sr`: the rounded-down magnitude of the resonant
/// filter tuned to the nearest whole bin.
pub open spec fn band_energy(xs: Seq<i64>, f: nat, sr: nat) -> nat {
    sqrt_floor(goertzel_magsq(xs, goertzel_coeff(xs.len(), f, sr)) as nat)
}

/// A band energy never exceeds `ENERGY_MAX`.
pub proof fn lemma_band_energy_bound(xs: Seq<i64>, f: nat, sr: nat)
    ensures
        band_energy(xs, f, sr) <= ENERGY_MAX,
{
    let m = goertzel_magsq(xs, goertzel_coeff(xs.len(), f, sr));
    lemma_sqrt_floor_bounds(m as nat);
    let s = sqrt_floor(m as nat);
    assert(s <= ENERGY_MAX) by (nonlinear_arith)
        requires
            s * s <= m,
            0 <= m <= MAGSQ_CAP,
            MAGSQ_CAP < ((ENERGY_MAX + 1) as int) * ((ENERGY_MAX + 1) as int),
            m < (s + 1) * (s + 1),
    ;
}

/// Run one resonant filter over the buffer: derive the nearest whole bin
/// for `target_freq`, the coefficient `2 * cos(2 * pi * bin / len)`, then
/// the saturating two-term recurrence seeded at zero over all samples,
/// and return the rounded-down output magnitude.
pub fn goertzel(buff: &Vec<i64>, target_freq: u64, srate: u64) -> (r: u64)
    requires
        buff@.len() >= 1,
        srate >= 1,
        target_freq <= crate::notes::FREQ_LIMIT,
    ensures
        r == band_energy(buff@, target_freq as nat, srate as nat),
        r <= ENERGY_MAX,
{
    let n: usize = buff.len();
    proof {
        assert(2 * (n as int) * (target_freq as int) + (srate as int) * (AMP_ONE as int)
            < 85070591730234615865843651857942052864) by (nonlinear_arith)
            requires
                n < 0x10000000000000000,
                target_freq <= crate::notes::FREQ_LIMIT,
                srate < 0x10000000000000000,
        ;
        assert(2 * (srate as int) * (AMP_ONE as int)
            < 85070591730234615865843651857942052864) by (nonlinear_arith)
            requires
                srate < 0x10000000000000000,
        ;
        assert(2 * (srate as int) * (AMP_ONE as int) >= 1) by (nonlinear_arith)
            requires
                srate >= 1,
        ;
    }
    let num: u128 = 2 * (n as u128) * (target_freq as u128) + (srate as u128) * (AMP_ONE as u128);
    let den: u128 = 2 * (srate as u128) * (AMP_ONE as u128);
    let k: u128 = num / den;
    let kr: u128 = k % (n as u128);
    let angle_wide: u128 = ((TWO_PI_Q30 as u128) * kr) / (n as u128);
    proof {
        assert((TWO_PI_Q30 as int) * (kr as int) < (n as int) * (TWO_PI_Q30 as int + 1))
            by (nonlinear_arith)
            requires
                0 <= kr < n,
                n >= 1,
        ;
        vstd::arithmetic::div_mod::lemma_multiply_divide_lt(
            (TWO_PI_Q30 as int) * (kr as int),
            n as int,
            TWO_PI_Q30 as int + 1,
        );
    }
    let angle: i64 = angle_wide as i64;
    let c: i64 = 2 * cos_q30(angle);
    assert(c == goertzel_coeff(n as nat, target_freq as nat, srate as nat));
    let mut q1: i128 = 0;
    let mut q2: i128 = 0;
    let mut i: usize = 0;
    while i < n
        invariant
            0 <= i <= n,
            n == buff@.len(),
            -2 * TRIG_ONE <= c <= 2 * TRIG_ONE,
            q1 == goertzel_state(buff@, c as int, i as nat).0,
            q2 == goertzel_state(buff@, c as int, i as nat).1,
            -STATE_CAP <= q1 <= STATE_CAP,
            -STATE_CAP <= q2 <= STATE_CAP,
        decreases n - i,
    {
        proof {
            assert(-1208925819614629174706176 <= (c as int) * (q1 as int) <= 1208925819614629174706176)
                by (nonlinear_arith)
                requires
                    -2 * TRIG_ONE <= c <= 2 * TRIG_ONE,
                    -STATE_CAP <= q1 <= STATE_CAP,
            ;
        }
        let p: i128 = div_trunc_i128((c as i128) * q1, TRIG_ONE as i128);
        let raw: i128 = p - q2 + (buff[i] as i128);
        let q0: i128 = clamp_i128(raw, -STATE_CAP, STATE_CAP);
        q2 = q1;
        q1 = q0;
        i = i + 1;
    }
    proof {
        assert(-4951760157141521099596496896 <= (q1 as int) * (q2 as int) <= 4951760157141521099596496896) by (nonlinear_arith)
            requires
                -STATE_CAP <= q1 <= STATE_CAP,
                -STATE_CAP <= q2 <= STATE_CAP,
        ;
        assert(-21267647932558653966460912964485513216 <= (q1 as int) * (q2 as int) * (c as int) <= 21267647932558653966460912964485513216)
            by (nonlinear_arith)
            requires
                -4951760157141521099596496896 <= (q1 as int) * (q2 as int) <= 4951760157141521099596496896,
                -2 * TRIG_ONE <= c <= 2 * TRIG_ONE,
        ;
        assert(0 <= (q1 as int) * (q1 as int) <= 4951760157141521099596496896) by (nonlinear_arith)
            requires
                -STATE_CAP <= q1 <= STATE_CAP,
        ;
        assert(0 <= (q2 as int) * (q2 as int) <= 4951760157141521099596496896) by (nonlinear_arith)
            requires
                -STATE_CAP <= q2 <= STATE_CAP,
        ;
    }
    let cross: i128 = div_trunc_i128(q1 * q2 * (c as i128), TRIG_ONE as i128);
    let rawm: i128 = q1 * q1 + q2 * q2 - cross;
    let magsq: i128 = clamp_i128(rawm, 0, MAGSQ_CAP);
    let e: u64 = isqrt(magsq as u128);
    proof {
        lemma_band_energy_bound(buff@, target_freq as nat, srate as nat);
    }
    e
}

/// The most bands a filter bank may be configured with.
pub const MAX_BANDS: usize = 4096;

/// The index of the greatest value among the first `n` entries, earliest
/// occurrence winning ties.
pub open spec fn first_max_upto(s: Seq<u64>, n: nat) -> int
    decreases n,
{
    if n <= 1 {
        0
    } else {
        let p = first_max_upto(s, (n - 1) as nat);
        if s[n - 1] > s[p] {
            n - 1
        } else {
            p
        }
    }
}

/// The index of the greatest value, earliest occurrence winning ties.
pub open spec fn first_max_index(s: Seq<u64>) -> int {
    first_max_upto(s, s.len())
}

/// `i` holds the greatest value and every earlier entry is strictly
/// smaller.
pub open spec fn is_first_max(s: Seq<u64>, i: int) -> bool {
    &&& 0 <= i < s.len()
    &&& forall|j: int| 0 <= j < s.len() ==> #[trigger] s[j] <= s[i]
    &&& forall|j: int| 0 <= j < i ==> #[trigger] s[j] < s[i]
}

/// `first_max_upto` indeed picks the first maximum of the prefix.
pub proof fn lemma_first_max_upto(s: Seq<u64>, n: nat)
    requires
        1 <= n <= s.len(),
    ensures
        0 <= first_max_upto(s, n) < n,
        forall|j: int| 0 <= j < n ==> #[trigger] s[j] <= s[first_max_upto(s, n)],
        forall|j: int| 0 <= j < first_max_upto(s, n) ==> #[trigger] s[j] < s[first_max_upto(s, n)],
    decreases n,
{
    if n > 1 {
        lemma_first_max_upto(s, (n - 1) as nat);
    }
}

/// `first_max_index` satisfies `is_first_max`.
pub proof fn lemma_first_max_index(s: Seq<u64>)
    requires
        s.len() >= 1,
    ensures
        is_first_max(s, first_max_index(s)),
{
    lemma_first_max_upto(s, s.len());
}

/// Find the index of the greatest energy; ties go to the lowest band.
pub fn argmax(v: &Vec<u64>) -> (r: usize)
    requires
        v@.len() >= 1,
    ensures
        r == first_max_index(v@),
        is_first_max(v@, r as int),
{
    let mut best: usize = 0;
    let mut i: usize = 1;
    while i < v.len()
        invariant
            1 <= i <= v@.len(),
            best == first_max_upto(v@, i as nat),
            0 <= best < i,
        decreases v@.len() - i,
    {
        if v[i] > v[best] {
            best = i;
        }
        i = i + 1;
    }
    proof {
        lemma_first_max_index(v@);
    }
    best
}

/// The total of a sequence of energies.
pub open spec fn sum_values(s: Seq<u64>) -> int
    decreases s.len(),
{
    if s.len() == 0 {
        0
    } else {
        sum_values(s.drop_last()) + s.last()
    }
}

/// Sum a vector of energies no greater than `ENERGY_MAX` each.
pub fn sum_vec(v: &Vec<u64>) -> (r: u64)
    requires
        v@.len() <= MAX_BANDS,
        forall|i: int| 0 <= i < v@.len() ==> #[trigger] v@[i] <= ENERGY_MAX,
    ensures
        r == sum_values(v@),
{
    let mut total: u64 = 0;
    let mut i: usize = 0;
    while i < v.len()
        invariant
            0 <= i <= v@.len(),
            v@.len() <= MAX_BANDS,
            forall|j: int| 0 <= j < v@.len() ==> #[trigger] v@[j] <= ENERGY_MAX,
            total == sum_values(v@.subrange(0, i as int)),
            total <= i * ENERGY_MAX,
        decreases v@.len() - i,
    {
        proof {
            assert(v@.subrange(0, i as int + 1).drop_last() =~= v@.subrange(0, i as int));
            assert(v@.subrange(0, i as int + 1).last() == v@[i as int]);
        }
        total = total + v[i];
        i = i + 1;
    }
    proof {
        assert(v@.subrange(0, v@.len() as int) =~= v@);
    }
    total
}

/// The band a subharmonic probe lands on: `off` semitones below `amax`,
/// clamped to band 0.  Near the bottom of the range two probes can alias
/// to band 0; that boundary behavior is deliberate.
pub open spec fn sub_band(amax: int, off: int) -> int {
    if amax - off >= 0 {
        amax - off
    } else {
        0
    }
}

/// Whether a probe band carries at least one twentieth of the total
/// energy.
pub open spec fn probe_passes(s: Seq<u64>, idx: int, total: int) -> bool {
    20 * s[idx] >= total
}

/// Octave-error correction: probe the subharmonics 24, 19, 12 and 7
/// semitones below the strongest band, in that order, and settle on the
/// first that carries at least one twentieth of the total energy; keep
/// the strongest band itself when none does.
pub open spec fn corrected_band(s: Seq<u64>, amax: int, total: int) -> int {
    if probe_passes(s, sub_band(amax, 24), total) {
        sub_band(amax, 24)
    } else if probe_passes(s, sub_band(amax, 19), total) {
        sub_band(amax, 19)
    } else if probe_passes(s, sub_band(amax, 12), total) {
        sub_band(amax, 12)
    } else if probe_passes(s, sub_band(amax, 7), total) {
        sub_band(amax, 7)
    } else {
        amax
    }
}

/// The corrected band never moves upward or out of range.
pub proof fn lemma_corrected_band_range(s: Seq<u64>, amax: int, total: int)
    requires
        0 <= amax < s.len(),
    ensures
        0 <= corrected_band(s, amax, total) <= amax,
{
}

/// What the filter bank reports for a given energy vector: the sentinel
/// `(0, 0)` when even the strongest band sits at or below the noise
/// floor, else the frequency and energy of the octave-corrected band.
pub open spec fn estimate_spec(freqs: Seq<u64>, s: Seq<u64>, noise: u64) -> (u64, u64) {
    let a = first_max_index(s);
    if s[a] <= noise {
        (0u64, 0u64)
    } else {
        let b = corrected_band(s, a, sum_values(s));
        (freqs[b], s[b])
    }
}

/// A silent energy vector is reported unvoiced, with frequency zero:
/// when every band energy is zero, the estimate is exactly the sentinel,
/// whatever the noise floor.
pub proof fn lemma_silence_unvoiced(freqs: Seq<u64>, s: Seq<u64>, noise: u64)
    requires
        s.len() >= 1,
        forall|i: int| 0 <= i < s.len() ==> #[trigger] s[i] == 0,
    ensures
        estimate_spec(freqs, s, noise) == (0u64, 0u64),
{
    lemma_first_max_index(s);
}

/// The recurrence stays at zero over an all-silent buffer.
proof fn lemma_goertzel_state_silent(xs: Seq<i64>, c: int, n: nat)
    requires
        n <= xs.len(),
        forall|i: int| 0 <= i < xs.len() ==> #[trigger] xs[i] == 0,
    ensures
        goertzel_state(xs, c, n) == (0int, 0int),
    decreases n,
{
    if n > 0 {
        lemma_goertzel_state_silent(xs, c, (n - 1) as nat);
        assert(c * 0 == 0) by (nonlinear_arith);
        assert(div_trunc(0, TRIG_ONE as int) == 0);
    }
}

/// Every band of an all-silent buffer has zero energy.
pub proof fn lemma_band_energy_silent(xs: Seq<i64>, f: nat, sr: nat)
    requires
        forall|i: int| 0 <= i < xs.len() ==> #[trigger] xs[i] == 0,
    ensures
        band_energy(xs, f, sr) == 0,
{
    let c = goertzel_coeff(xs.len(), f, sr);
    lemma_goertzel_state_silent(xs, c, xs.len());
    let s = goertzel_state(xs, c, xs.len());
    assert(s.0 * s.0 == 0 && s.1 * s.1 == 0 && s.0 * s.1 * c == 0) by (nonlinear_arith)
        requires
            s.0 == 0,
            s.1 == 0,
    ;
    assert(div_trunc(0, TRIG_ONE as int) == 0);
    assert(goertzel_magsq(xs, c) == 0);
}

/// For every silent analysis buffer the filter bank reports the unvoiced
/// sentinel: energies computed over all-zero amplitudes are all zero, so
/// the estimate is `(0, 0)`.
pub proof fn lemma_silent_buffer_estimate(
    freqs: Seq<u64>,
    energies: Seq<u64>,
    xs: Seq<i64>,
    sr: nat,
    noise: u64,
)
    requires
        1 <= energies.len() <= freqs.len(),
        forall|i: int| 0 <= i < xs.len() ==> #[trigger] xs[i] == 0,
        forall|i: int|
            0 <= i < energies.len() ==> #[trigger] energies[i] == band_energy(
                xs,
                freqs[i] as nat,
                sr,
            ),
    ensures
        estimate_spec(freqs, energies, noise) == (0u64, 0u64),
{
    assert forall|i: int| 0 <= i < energies.len() implies #[trigger] energies[i] == 0 by {
        lemma_band_energy_silent(xs, freqs[i] as nat, sr);
    }
    lemma_silence_unvoiced(freqs, energies, noise);
}

/// A signal whose strongest band sits twelve semitones above a band
/// carrying at least one twentieth of the total energy is corrected down
/// to that band, provided the two longer-interval probes (24 and 19
/// semitones down) carry no such share.
pub proof fn lemma_octave_correction_twelve(s: Seq<u64>, amax: int, total: int)
    requires
        0 <= amax < s.len(),
        amax >= 12,
        !probe_passes(s, sub_band(amax, 24), total),
        !probe_passes(s, sub_band(amax, 19), total),
        probe_passes(s, amax - 12, total),
    ensures
        corrected_band(s, amax, total) == amax - 12,
{
}

/// The Goertzel filter bank over equal-tempered semitone bands.
pub struct GoertzelEstimator {
    thresh: u64,
    target_freqs: Vec<u64>,
    gvec: Vec<u64>,
    srate: u64,
}

impl GoertzelEstimator {
    /// The band center frequencies, at the `AMP_ONE` scale.
    pub closed spec fn freqs(&self) -> Seq<u64> {
        self.target_freqs@
    }

    /// The per-band energies of the last processed buffer.
    pub closed spec fn energies(&self) -> Seq<u64> {
        self.gvec@
    }

    /// The number of bands.
    pub open spec fn bands(&self) -> nat {
        self.freqs().len()
    }

    /// The noise floor below which a window counts as silent.
    pub closed spec fn noise_floor(&self) -> u64 {
        self.thresh
    }

    /// The sample rate in Hz.
    pub closed spec fn rate(&self) -> u64 {
        self.srate
    }

    /// A valid filter bank: a well-formed band ladder, a positive rate,
    /// and one bounded energy slot per band.
    pub closed spec fn wf(&self) -> bool {
        &&& ladder_wf(self.target_freqs@)
        &&& 1 <= self.target_freqs@.len() <= MAX_BANDS
        &&& self.srate >= 1
        &&& self.gvec@.len() == self.target_freqs@.len()
        &&& forall|i: int| 0 <= i < self.gvec@.len() ==> #[trigger] self.gvec@[i] <= ENERGY_MAX
    }

    /// What validity guarantees, for callers that only see `wf` as an
    /// opaque predicate: the band count and rate bounds, one energy slot
    /// per band, and the open ladder shape of the band centers.
    pub proof fn lemma_wf_bounds(&self)
        requires
            self.wf(),
        ensures
            1 <= self.bands() <= MAX_BANDS,
            self.rate() >= 1,
            self.energies().len() == self.bands(),
            forall|i: int| 0 <= i < self.bands() ==> #[trigger] self.energies()[i] <= ENERGY_MAX,
            ladder_wf(self.freqs()),
    {
    }

    /// Build the bank: `bands` equal-tempered bands anchored at
    /// `min_freq` (at the `AMP_ONE` scale), validated fail-fast.
    pub fn new(min_freq: u64, srate: u64, bands: usize, noise_thresh: u64) -> (r: Result<
        GoertzelEstimator,
        ConfigError,
    >)
        ensures
            r is Ok <==> (srate >= 1 && 1 <= bands <= MAX_BANDS && ladder_buildable(
                min_freq as nat,
                bands as nat,
            )),
            r matches Ok(e) ==> {
                &&& e.wf()
                &&& e.rate() == srate
                &&& e.noise_floor() == noise_thresh
                &&& e.bands() == bands
                &&& forall|i: int|
                    0 <= i < bands ==> #[trigger] e.freqs()[i] == nth_step(
                        min_freq as nat,
                        i as nat,
                    )
                &&& forall|i: int| 0 <= i < bands ==> #[trigger] e.energies()[i] == 0
            },
            r == Err::<GoertzelEstimator, ConfigError>(ConfigError::ZeroSampleRate) <==> srate
                == 0,
            r == Err::<GoertzelEstimator, ConfigError>(ConfigError::ZeroBands) <==> (srate >= 1
                && bands == 0),
            r == Err::<GoertzelEstimator, ConfigError>(ConfigError::TooManyBands) <==> (srate >= 1
                && bands > MAX_BANDS),
            r == Err::<GoertzelEstimator, ConfigError>(ConfigError::FrequencyOutOfRange) <==> (
            srate >= 1 && 1 <= bands <= MAX_BANDS && !ladder_buildable(
                min_freq as nat,
                bands as nat,
            )),
    {
        if srate == 0 {
            return Err(ConfigError::ZeroSampleRate);
        }
        if bands == 0 {
            return Err(ConfigError::ZeroBands);
        }
        if bands > MAX_BANDS {
            return Err(ConfigError::TooManyBands);
        }
        let freq_array: Vec<u64> = match build_ladder(min_freq, bands) {
            Ok(t) => t,
            Err(e) => {
                return Err(e);
            },
        };
        let mut gvec: Vec<u64> = Vec::new();
        let mut i: usize = 0;
        while i < bands
            invariant
                0 <= i <= bands,
                gvec@.len() == i,
                forall|j: int| 0 <= j < i ==> #[trigger] gvec@[j] == 0,
            decreases bands - i,
        {
            gvec.push(0);
            i = i + 1;
        }
        Ok(GoertzelEstimator { thresh: noise_thresh, target_freqs: freq_array, gvec, srate })
    }

    /// A copy of the per-band energies of the last processed buffer.
    pub fn spectrum(&self) -> (r: Vec<u64>)
        ensures
            r@ == self.energies(),
    {
        crate::frame::copy_vec(&self.gvec)
    }

    /// Run every band's filter over the analysis buffer, refreshing the
    /// energy vector.
    pub fn process(&mut self, buff: &Vec<i64>)
        requires
            old(self).wf(),
            buff@.len() >= 1,
        ensures
            final(self).wf(),
            final(self).freqs() == old(self).freqs(),
            final(self).rate() == old(self).rate(),
            final(self).noise_floor() == old(self).noise_floor(),
            final(self).energies().len() == old(self).bands(),
            forall|i: int|
                0 <= i < old(self).bands() ==> #[trigger] final(self).energies()[i] == band_energy(
                    buff@,
                    old(self).freqs()[i] as nat,
                    old(self).rate() as nat,
                ),
    {
        let bands: usize = self.target_freqs.len();
        let mut gvec: Vec<u64> = Vec::new();
        let mut i: usize = 0;
        while i < bands
            invariant
                0 <= i <= bands,
                self.wf(),
                buff@.len() >= 1,
                bands == self.bands(),
                gvec@.len() == i,
                forall|j: int|
                    0 <= j < i ==> #[trigger] gvec@[j] == band_energy(
                        buff@,
                        self.freqs()[j] as nat,
                        self.rate() as nat,
                    ),
                forall|j: int| 0 <= j < i ==> #[trigger] gvec@[j] <= ENERGY_MAX,
            decreases bands - i,
        {
            let e: u64 = goertzel(buff, self.target_freqs[i], self.srate);
            gvec.push(e);
            i = i + 1;
        }
        self.gvec = gvec;
    }

    /// The pitch decision over the current energy vector: `(frequency,
    /// strength)`, with the sentinel `(0, 0)` when every band energy is
    /// at or below the noise floor, else the octave-corrected band's
    /// center frequency and raw energy.  The reported frequency is zero
    /// or one of the band centers, never an interpolated value.
    pub fn get_pitch(&self) -> (r: (u64, u64))
        requires
            self.wf(),
        ensures
            r == estimate_spec(self.freqs(), self.energies(), self.noise_floor()),
            r.1 <= ENERGY_MAX,
            r.0 == 0 <==> self.energies()[first_max_index(self.energies())] <= self.noise_floor(),
            r.0 != 0 ==> exists|b: int| 0 <= b < self.bands() && r.0 == self.freqs()[b],
    {
        let a: usize = argmax(&self.gvec);
        let ea: u64 = self.gvec[a];
        if ea <= self.thresh {
            return (0, 0);
        }
        let total: u64 = sum_vec(&self.gvec);
        proof {
            lemma_corrected_band_range(self.gvec@, a as int, total as int);
        }
        let c24: usize = if a >= 24 {
            a - 24
        } else {
            0
        };
        if 20 * self.gvec[c24] >= total {
            proof {
                assert(0 <= c24 < self.bands() && self.freqs()[c24 as int] == self.target_freqs@[c24 as int]);
            }
            return (self.target_freqs[c24], self.gvec[c24]);
        }
        let c19: usize = if a >= 19 {
            a - 19
        } else {
            0
        };
        if 20 * self.gvec[c19] >= total {
            proof {
                assert(0 <= c19 < self.bands() && self.freqs()[c19 as int] == self.target_freqs@[c19 as int]);
            }
            return (self.target_freqs[c19], self.gvec[c19]);
        }
        let c12: usize = if a >= 12 {
            a - 12
        } else {
            0
        };
        if 20 * self.gvec[c12] >= total {
            proof {
                assert(0 <= c12 < self.bands() && self.freqs()[c12 as int] == self.target_freqs@[c12 as int]);
            }
            return (self.target_freqs[c12], self.gvec[c12]);
        }
        let c7: usize = if a >= 7 {
            a - 7
        } else {
            0
        };
        if 20 * self.gvec[c7] >= total {
            proof {
                assert(0 <= c7 < self.bands() && self.freqs()[c7 as int] == self.target_freqs@[c7 as int]);
            }
            return (self.target_freqs[c7], self.gvec[c7]);
        }
        proof {
            assert(0 <= a < self.bands() && self.freqs()[a as int] == self.target_freqs@[a as int]);
        }
        (self.target_freqs[a], self.gvec[a])
    }
}

} // verus!
