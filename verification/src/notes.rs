//! Equal-tempered frequency ladders and the MIDI note scale.
//!
//! Band center frequencies and note frequencies are both geometric
//! sequences with the semitone ratio 2^(1/12): each entry is the previous
//! one multiplied by `SEMITONE_RATIO` at the `TRIG_ONE` scale.  A ladder is
//! validated at construction: every entry stays positive, below
//! `FREQ_LIMIT`, and at least three fixed-point steps above its
//! predecessor, which is what the note-rounding proofs need.

use vstd::prelude::*;

use crate::fixedpoint::TRIG_ONE;
use crate::fixedpoint::isqrt;
use crate::fixedpoint::lemma_sqrt_floor_bounds;
use crate::fixedpoint::sqrt_floor;
use crate::ConfigError;

verus! {

/// The semitone ratio 2^(1/12) at the `TRIG_ONE` scale.
pub const SEMITONE_RATIO: u64 = 1137589835;

/// The frequency of MIDI note 0 (about 8.1758 Hz) at the `AMP_ONE` scale.
pub const NOTE_ZERO_FREQ: u64 = 535809;

/// Ceiling for ladder entries, so that one more semitone step cannot
/// overflow and boundary products stay within the square-root domain.
pub const FREQ_LIMIT: u64 = 35184372088832;

/// The number of MIDI notes.
pub const MIDI_NOTES: usize = 128;

/// One semitone upward at the fixed-point scale (truncating).
pub open spec fn ladder_step(f: nat) -> nat {
    (f * (SEMITONE_RATIO as nat)) / (TRIG_ONE as nat)
}

/// `n` semitone steps above `anchor`.
pub open spec fn nth_step(anchor: nat, n: nat) -> nat
    decreases n,
{
    if n == 0 {
        anchor
    } else {
        ladder_step(nth_step(anchor, (n - 1) as nat))
    }
}

/// A well-formed ladder: every entry in range, each one a semitone step
/// above its predecessor, and gaps wide enough for rounding boundaries.
pub open spec fn ladder_wf(t: Seq<u64>) -> bool {
    &&& t.len() >= 1
    &&& forall|i: int| 0 <= i < t.len() ==> 1 <= #[trigger] t[i] <= FREQ_LIMIT
    &&& forall|i: int|
        0 <= i < t.len() - 1 ==> (#[trigger] t[i + 1] == ladder_step(t[i] as nat) && t[i] + 3
            <= t[i + 1])
}

/// The inputs on which a ladder can be built: the anchor is in range and
/// every iterate keeps the range and the minimum gap.
pub open spec fn ladder_buildable(anchor: nat, count: nat) -> bool {
    &&& 1 <= anchor <= FREQ_LIMIT
    &&& forall|i: int|
        0 <= i < count - 1 ==> (#[trigger] nth_step(anchor, (i + 1) as nat) <= FREQ_LIMIT
            && nth_step(anchor, i as nat) + 3 <= nth_step(anchor, (i + 1) as nat))
}

/// Build the geometric ladder of `count` frequencies anchored at `anchor`,
/// validating range and gap of every entry.
pub fn build_ladder(anchor: u64, count: usize) -> (r: Result<Vec<u64>, ConfigError>)
    requires
        count >= 1,
    ensures
        r is Ok <==> ladder_buildable(anchor as nat, count as nat),
        r matches Ok(t) ==> {
            &&& t@.len() == count
            &&& ladder_wf(t@)
            &&& forall|i: int| 0 <= i < count ==> #[trigger] t@[i] == nth_step(anchor as nat, i as nat)
        },
        r matches Err(e) ==> e == ConfigError::FrequencyOutOfRange,
{
    if anchor == 0 || anchor > FREQ_LIMIT {
        return Err(ConfigError::FrequencyOutOfRange);
    }
    let mut t: Vec<u64> = Vec::new();
    t.push(anchor);
    let mut i: usize = 1;
    while i < count
        invariant
            1 <= i <= count,
            t@.len() == i,
            1 <= anchor <= FREQ_LIMIT,
            forall|j: int| 0 <= j < i ==> #[trigger] t@[j] == nth_step(anchor as nat, j as nat),
            forall|j: int| 0 <= j < i ==> 1 <= #[trigger] t@[j] <= FREQ_LIMIT,
            forall|j: int|
                0 <= j < i - 1 ==> (#[trigger] t@[j + 1] == ladder_step(t@[j] as nat) && t@[j] + 3
                    <= t@[j + 1]),
        decreases count - i,
    {
        let f: u64 = t[i - 1];
        let next_wide: u128 = ((f as u128) * (SEMITONE_RATIO as u128)) / (TRIG_ONE as u128);
        proof {
            assert((f as int) * (SEMITONE_RATIO as int) <= (FREQ_LIMIT as int) * (
            SEMITONE_RATIO as int)) by (nonlinear_arith)
                requires
                    1 <= f <= FREQ_LIMIT,
            ;
        }
        proof {
            vstd::arithmetic::div_mod::lemma_multiply_divide_lt(
                (f as int) * (SEMITONE_RATIO as int),
                TRIG_ONE as int,
                0x10000000000000000,
            );
        }
        let next: u64 = next_wide as u64;
        proof {
            assert(next == ladder_step(f as nat));
            assert(f == nth_step(anchor as nat, (i - 1) as nat));
            assert(nth_step(anchor as nat, i as nat) == ladder_step(
                nth_step(anchor as nat, (i - 1) as nat),
            ));
        }
        if next > FREQ_LIMIT || next < f + 3 {
            proof {
                if ladder_buildable(anchor as nat, count as nat) {
                    assert(nth_step(anchor as nat, ((i - 1) + 1) as nat) <= FREQ_LIMIT
                        && nth_step(anchor as nat, (i - 1) as nat) + 3 <= nth_step(
                        anchor as nat,
                        ((i - 1) + 1) as nat,
                    ));
                    assert(false);
                }
            }
            return Err(ConfigError::FrequencyOutOfRange);
        }
        t.push(next);
        i = i + 1;
    }
    proof {
        assert forall|j: int| 0 <= j < count - 1 implies (#[trigger] nth_step(
            anchor as nat,
            (j + 1) as nat,
        ) <= FREQ_LIMIT && nth_step(anchor as nat, j as nat) + 3 <= nth_step(
            anchor as nat,
            (j + 1) as nat,
        )) by {
            assert(t@[j] == nth_step(anchor as nat, j as nat));
            assert(t@[j + 1] == nth_step(anchor as nat, (j + 1) as nat));
            assert(t@[j] + 3 <= t@[j + 1]);
        }
    }
    Ok(t)
}

/// The rounding boundary below entry `n`: the geometric mean (rounded
/// down) of entries `n - 1` and `n`.
pub open spec fn boundary(t: Seq<u64>, n: int) -> nat {
    sqrt_floor((t[n - 1] as nat) * (t[n] as nat))
}

/// The nearest-entry index for `f`, scanning boundaries from `n` down:
/// the highest index at most `n` whose boundary is at or below `f`.
pub open spec fn note_from(t: Seq<u64>, f: nat, n: nat) -> nat
    decreases n,
{
    if n == 0 {
        0
    } else if boundary(t, n as int) <= f {
        n
    } else {
        note_from(t, f, (n - 1) as nat)
    }
}

/// The index of the ladder entry nearest to `f` in the geometric sense.
pub open spec fn nearest_index(t: Seq<u64>, f: nat) -> nat {
    note_from(t, f, (t.len() - 1) as nat)
}

/// Entries of a well-formed ladder grow with the index.
pub proof fn lemma_ladder_monotone(t: Seq<u64>, i: int, j: int)
    requires
        ladder_wf(t),
        0 <= i <= j < t.len(),
    ensures
        t[i] <= t[j],
    decreases j - i,
{
    if i < j {
        lemma_ladder_monotone(t, i, j - 1);
        assert(t[(j - 1) + 1] == ladder_step(t[j - 1] as nat) && t[j - 1] + 3 <= t[(j - 1) + 1]);
    }
}

/// The boundary below an entry does not exceed that entry.
proof fn lemma_boundary_le(t: Seq<u64>, n: int)
    requires
        ladder_wf(t),
        1 <= n < t.len(),
    ensures
        boundary(t, n) <= t[n],
{
    lemma_ladder_monotone(t, n - 1, n);
    let p = (t[n - 1] as nat) * (t[n] as nat);
    lemma_sqrt_floor_bounds(p);
    assert(sqrt_floor(p) <= t[n]) by (nonlinear_arith)
        requires
            sqrt_floor(p) * sqrt_floor(p) <= p,
            p == (t[n - 1] as nat) * (t[n] as nat),
            t[n - 1] <= t[n],
    ;
}

/// The boundary below an entry lies strictly above the previous entry.
proof fn lemma_boundary_gt_prev(t: Seq<u64>, n: int)
    requires
        ladder_wf(t),
        1 <= n < t.len(),
    ensures
        boundary(t, n) > t[n - 1],
{
    assert(t[(n - 1) + 1] == ladder_step(t[n - 1] as nat) && t[n - 1] + 3 <= t[(n - 1) + 1]);
    let p = (t[n - 1] as nat) * (t[n] as nat);
    lemma_sqrt_floor_bounds(p);
    assert(sqrt_floor(p) > t[n - 1]) by (nonlinear_arith)
        requires
            p < (sqrt_floor(p) + 1) * (sqrt_floor(p) + 1),
            p == (t[n - 1] as nat) * (t[n] as nat),
            t[n - 1] + 3 <= t[n],
            t[n - 1] >= 1,
    ;
}

/// Scanning from any index above `k` settles on `k` when `f` is entry `k`.
proof fn lemma_note_from_entry(t: Seq<u64>, k: int, n: int)
    requires
        ladder_wf(t),
        0 <= k < t.len(),
        k <= n < t.len(),
    ensures
        note_from(t, t[k] as nat, n as nat) == k,
    decreases n,
{
    if n == k {
        if k > 0 {
            lemma_boundary_le(t, k);
        }
    } else {
        if n - 1 == k {
            lemma_boundary_gt_prev(t, n);
        } else {
            lemma_boundary_gt_prev(t, n);
            lemma_ladder_monotone(t, k + 1, n - 1);
            assert(t[k] + 3 <= t[k + 1]);
        }
        lemma_note_from_entry(t, k, n - 1);
    }
}

/// Rounding a ladder entry recovers its own index: quantizing the exact
/// frequency of entry `k` yields `k`.
pub proof fn lemma_nearest_round_trip(t: Seq<u64>, k: int)
    requires
        ladder_wf(t),
        0 <= k < t.len(),
    ensures
        nearest_index(t, t[k] as nat) == k,
{
    lemma_note_from_entry(t, k, t.len() as int - 1);
}

/// Quantization inverts the note table: looking up the frequency of any
/// MIDI note and quantizing it back yields the same note.
pub proof fn lemma_scale_round_trip(s: NoteScale, n: int)
    requires
        s.wf(),
        0 <= n < MIDI_NOTES,
    ensures
        nearest_index(s@, s@[n] as nat) == n,
{
    lemma_nearest_round_trip(s@, n);
}

/// The table of the 128 MIDI note frequencies at the `AMP_ONE` scale.
pub struct NoteScale {
    table: Vec<u64>,
}

impl NoteScale {
    /// The note frequencies, lowest first.
    pub closed spec fn view(&self) -> Seq<u64> {
        self.table@
    }

    /// A valid scale: a well-formed ladder of all 128 notes anchored at
    /// MIDI note 0.
    pub closed spec fn wf(&self) -> bool {
        &&& ladder_wf(self.table@)
        &&& self.table@.len() == MIDI_NOTES
        &&& self.table@[0] == NOTE_ZERO_FREQ
    }

    /// What validity guarantees, for callers that only see `wf` as an
    /// opaque predicate: the table is a well-formed ladder of all 128
    /// notes, anchored at MIDI note 0.
    pub proof fn lemma_shape(&self)
        requires
            self.wf(),
        ensures
            ladder_wf(self@),
            self@.len() == MIDI_NOTES,
            self@[0] == NOTE_ZERO_FREQ,
    {
    }

    /// Build the scale from the fixed anchor.
    pub fn new() -> (r: Result<NoteScale, ConfigError>)
        ensures
            r is Ok <==> ladder_buildable(NOTE_ZERO_FREQ as nat, MIDI_NOTES as nat),
            r matches Ok(s) ==> s.wf(),
            r matches Err(e) ==> e == ConfigError::FrequencyOutOfRange,
    {
        match build_ladder(NOTE_ZERO_FREQ, MIDI_NOTES) {
            Ok(table) => Ok(NoteScale { table }),
            Err(e) => Err(e),
        }
    }

    /// The frequency of a MIDI note, at the `AMP_ONE` scale.
    pub fn get_freq(&self, note: u8) -> (r: u64)
        requires
            self.wf(),
            note < MIDI_NOTES,
        ensures
            r == self@[note as int],
    {
        self.table[note as usize]
    }

    /// The MIDI note nearest to `freq` (at the `AMP_ONE` scale): the
    /// highest note whose lower rounding boundary is at or below `freq`,
    /// or note 0 when `freq` lies below every boundary.
    pub fn get_midi_note(&self, freq: u64) -> (r: u8)
        requires
            self.wf(),
        ensures
            r == nearest_index(self@, freq as nat),
            r < MIDI_NOTES,
    {
        let mut n: usize = MIDI_NOTES - 1;
        while n > 0
            invariant
                self.wf(),
                0 <= n < MIDI_NOTES,
                nearest_index(self@, freq as nat) == note_from(self@, freq as nat, n as nat),
            decreases n,
        {
            let lo: u64 = self.table[n - 1];
            let hi: u64 = self.table[n];
            proof {
                assert((lo as int) * (hi as int) <= (FREQ_LIMIT as int) * (FREQ_LIMIT as int))
                    by (nonlinear_arith)
                    requires
                        1 <= lo <= FREQ_LIMIT,
                        1 <= hi <= FREQ_LIMIT,
                ;
            }
            let b: u64 = isqrt((lo as u128) * (hi as u128));
            if b <= freq {
                return n as u8;
            }
            n = n - 1;
        }
        0
    }
}

} // verus!
