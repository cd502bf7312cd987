//! The note event emitter: smooths the incoming frequency stream over a
//! short ring buffer, quantizes the mean to the nearest MIDI note, and
//! reports a transition only when the quantized note changes — the
//! debounce that keeps a noisy stream from retriggering notes.
//!
//! The smoothing ring is the `ringbuffer` crate's `AllocRingBuffer`,
//! held behind trusted wrappers; the raw frequency of every estimate is
//! pushed, voiced or not (an unvoiced estimate carries frequency zero),
//! matching the upstream estimator's sentinel convention.

use vstd::prelude::*;

use ringbuffer::RingBuffer;

use crate::frame::PitchEstimate;
use crate::goertzel::sum_values;
use crate::notes::ladder_wf;
use crate::notes::lemma_nearest_round_trip;
use crate::notes::nearest_index;
use crate::notes::NoteScale;
use crate::notes::FREQ_LIMIT;
use crate::notes::MIDI_NOTES;
use crate::ConfigError;

verus! {

/// The longest supported smoothing window.
pub const MAX_SMOOTHING: usize = 4096;

/// The frequencies an `AllocRingBuffer<u64>` currently holds, oldest
/// first.
pub uninterp spec fn smoothing_items(r: ringbuffer::AllocRingBuffer<u64>) -> Seq<u64>;

/// The capacity an `AllocRingBuffer<u64>` was created with.
pub uninterp spec fn smoothing_cap(r: ringbuffer::AllocRingBuffer<u64>) -> nat;

#[verifier::external_type_specification]
#[verifier::external_body]
#[verifier::reject_recursive_types(T)]
pub struct ExAllocRingBuffer<T>(ringbuffer::AllocRingBuffer<T>);

/// Relies on ringbuffer's AllocRingBuffer::new: an empty buffer that
/// will keep the last `cap` values (it panics on capacity zero).
#[verifier::external_body]
fn smoothing_new(cap: usize) -> (r: ringbuffer::AllocRingBuffer<u64>)
    requires
        cap >= 1,
    ensures
        smoothing_items(r) == Seq::<u64>::empty(),
        smoothing_cap(r) == cap,
{
    ringbuffer::AllocRingBuffer::new(cap)
}

/// Relies on ringbuffer's RingBuffer::enqueue: appends the value,
/// retiring the oldest one once the buffer is full.
#[verifier::external_body]
fn smoothing_push(r: &mut ringbuffer::AllocRingBuffer<u64>, x: u64)
    ensures
        smoothing_cap(*final(r)) == smoothing_cap(*old(r)),
        smoothing_items(*old(r)).len() < smoothing_cap(*old(r)) ==> smoothing_items(*final(r))
            == smoothing_items(*old(r)).push(x),
        smoothing_items(*old(r)).len() >= smoothing_cap(*old(r)) ==> smoothing_items(*final(r))
            == smoothing_items(*old(r)).subrange(
            1,
            smoothing_items(*old(r)).len() as int,
        ).push(x),
{
    let _ = r.enqueue(x);
}

/// Relies on ringbuffer's RingBuffer::to_vec: the kept values, oldest
/// first.
#[verifier::external_body]
fn smoothing_values(r: &ringbuffer::AllocRingBuffer<u64>) -> (v: Vec<u64>)
    ensures
        v@ == smoothing_items(*r),
{
    r.to_vec()
}

/// A sum of values bounded by `b` each is at most the count times `b`.
pub proof fn lemma_sum_values_bounded(s: Seq<u64>, b: u64)
    requires
        forall|i: int| 0 <= i < s.len() ==> #[trigger] s[i] <= b,
    ensures
        0 <= sum_values(s) <= s.len() * b,
    decreases s.len(),
{
    if s.len() > 0 {
        lemma_sum_values_bounded(s.drop_last(), b);
        assert((s.len() - 1) * b + b == s.len() * b) by (nonlinear_arith);
    }
}

/// The arithmetic mean of a window of frequencies, rounded down.
pub open spec fn smoothed_mean(w: Seq<u64>) -> nat {
    (sum_values(w) / w.len() as int) as nat
}

/// One note change: the previous stable note and the newly entered one.
#[derive(Clone, Copy, Debug, PartialEq, Eq, Structural)]
pub struct NoteTransition {
    /// The note left behind.
    pub previous: u8,
    /// The note now considered stable.
    pub new_note: u8,
}

/// Turns the pitch estimate stream into debounced note transitions.
pub struct NoteEventEmitter {
    buffer: ringbuffer::AllocRingBuffer<u64>,
    scale: NoteScale,
    last_note: u8,
}

impl NoteEventEmitter {
    /// The smoothing window's contents, oldest first.
    pub closed spec fn window(&self) -> Seq<u64> {
        smoothing_items(self.buffer)
    }

    /// The smoothing window's capacity.
    pub closed spec fn window_cap(&self) -> nat {
        smoothing_cap(self.buffer)
    }

    /// The note frequency table in use.
    pub closed spec fn scale_view(&self) -> Seq<u64> {
        self.scale@
    }

    /// The last note reported, 0 before any transition.
    pub closed spec fn last_note_spec(&self) -> u8 {
        self.last_note
    }

    /// A valid emitter: a valid scale, a nonempty bounded window whose
    /// values are representable frequencies, and a MIDI-range last note.
    pub closed spec fn wf(&self) -> bool {
        &&& self.scale.wf()
        &&& 1 <= self.window_cap() <= MAX_SMOOTHING
        &&& self.window().len() <= self.window_cap()
        &&& forall|i: int| 0 <= i < self.window().len() ==> #[trigger] self.window()[i] <= FREQ_LIMIT
        &&& self.last_note < MIDI_NOTES
    }

    /// What validity guarantees, for callers that only see `wf` as an
    /// opaque predicate: a well-formed full note scale and a bounded,
    /// nonempty smoothing capacity.
    pub proof fn lemma_wf_bounds(&self)
        requires
            self.wf(),
        ensures
            ladder_wf(self.scale_view()),
            self.scale_view().len() == MIDI_NOTES,
            1 <= self.window_cap() <= MAX_SMOOTHING,
            self.window().len() <= self.window_cap(),
            self.last_note_spec() < MIDI_NOTES,
    {
        self.scale.lemma_shape();
    }

    /// Build the emitter around a note scale, with a smoothing window of
    /// `smoothing` estimates; the note state starts at note 0, unset.
    pub fn new(scale: NoteScale, smoothing: usize) -> (r: Result<NoteEventEmitter, ConfigError>)
        requires
            scale.wf(),
        ensures
            r is Ok <==> 1 <= smoothing <= MAX_SMOOTHING,
            r matches Ok(e) ==> {
                &&& e.wf()
                &&& e.window() == Seq::<u64>::empty()
                &&& e.window_cap() == smoothing
                &&& e.scale_view() == scale@
                &&& e.last_note_spec() == 0
            },
            r == Err::<NoteEventEmitter, ConfigError>(ConfigError::ZeroSmoothing) <==> smoothing
                == 0,
            r == Err::<NoteEventEmitter, ConfigError>(ConfigError::SmoothingTooLong) <==> smoothing
                > MAX_SMOOTHING,
    {
        if smoothing == 0 {
            return Err(ConfigError::ZeroSmoothing);
        }
        if smoothing > MAX_SMOOTHING {
            return Err(ConfigError::SmoothingTooLong);
        }
        let buffer = smoothing_new(smoothing);
        Ok(NoteEventEmitter { buffer, scale, last_note: 0 })
    }

    /// Fold one estimate into the smoothing window and decide: push the
    /// raw frequency (zero when unvoiced), take the window's mean,
    /// quantize it to the nearest MIDI note, and report a transition
    /// exactly when that note differs from the last reported one.
    pub fn on_estimate(&mut self, est: &PitchEstimate) -> (r: Option<NoteTransition>)
        requires
            old(self).wf(),
            est.frequency <= FREQ_LIMIT,
        ensures
            final(self).wf(),
            final(self).window_cap() == old(self).window_cap(),
            final(self).scale_view() == old(self).scale_view(),
            final(self).window() == (if old(self).window().len() < old(self).window_cap() {
                old(self).window().push(est.frequency)
            } else {
                old(self).window().subrange(1, old(self).window().len() as int).push(est.frequency)
            }),
            ({
                let note = nearest_index(
                    old(self).scale_view(),
                    smoothed_mean(final(self).window()),
                );
                &&& final(self).last_note_spec() == note
                &&& (r is Some <==> note != old(self).last_note_spec())
                &&& (r matches Some(tr) ==> tr.previous == old(self).last_note_spec()
                    && tr.new_note == note)
            }),
    {
        smoothing_push(&mut self.buffer, est.frequency);
        let vals: Vec<u64> = smoothing_values(&self.buffer);
        proof {
            lemma_sum_values_bounded(vals@, FREQ_LIMIT);
        }
        let mut total: u64 = 0;
        let mut i: usize = 0;
        while i < vals.len()
            invariant
                0 <= i <= vals@.len(),
                vals@.len() <= MAX_SMOOTHING,
                forall|j: int| 0 <= j < vals@.len() ==> #[trigger] vals@[j] <= FREQ_LIMIT,
                total == sum_values(vals@.subrange(0, i as int)),
                total <= i * FREQ_LIMIT,
            decreases vals@.len() - i,
        {
            proof {
                assert(vals@.subrange(0, i as int + 1).drop_last() =~= vals@.subrange(0, i as int));
                assert((i as int) * FREQ_LIMIT + FREQ_LIMIT == (i as int + 1) * FREQ_LIMIT)
                    by (nonlinear_arith);
            }
            total = total + vals[i];
            i = i + 1;
        }
        proof {
            assert(vals@.subrange(0, vals@.len() as int) =~= vals@);
        }
        let mean: u64 = total / (vals.len() as u64);
        let note: u8 = self.scale.get_midi_note(mean);
        if note != self.last_note {
            let prev: u8 = self.last_note;
            self.last_note = note;
            Some(NoteTransition { previous: prev, new_note: note })
        } else {
            None
        }
    }
}

/// The sum of a window holding the same value everywhere.
proof fn lemma_sum_constant(w: Seq<u64>, f: u64)
    requires
        forall|i: int| 0 <= i < w.len() ==> #[trigger] w[i] == f,
    ensures
        sum_values(w) == w.len() * f,
    decreases w.len(),
{
    if w.len() > 0 {
        lemma_sum_constant(w.drop_last(), f);
        assert((w.len() - 1) * f + f == w.len() * f) by (nonlinear_arith);
    }
}

/// A steady tone holds its note: a smoothing window filled with the
/// exact frequency of scale entry `n` smooths to that frequency and
/// quantizes back to `n` — so an emitter whose last note is already `n`
/// reports no transition for it.
pub proof fn lemma_steady_window_keeps_note(t: Seq<u64>, w: Seq<u64>, n: int)
    requires
        ladder_wf(t),
        0 <= n < t.len(),
        w.len() >= 1,
        forall|i: int| 0 <= i < w.len() ==> #[trigger] w[i] == t[n],
    ensures
        smoothed_mean(w) == t[n],
        nearest_index(t, smoothed_mean(w)) == n,
{
    lemma_sum_constant(w, t[n]);
    vstd::arithmetic::div_mod::lemma_div_multiples_vanish(t[n] as int, w.len() as int);
    lemma_nearest_round_trip(t, n);
}

/// Relies on midly's LiveEvent::write for a channel-voice note-on: the
/// wire form is the status byte `0x90 + channel` followed by the key and
/// the velocity (writing to a Vec cannot fail).
#[verifier::external_body]
fn encode_note_on(channel: u8, key: u8, vel: u8) -> (r: Vec<u8>)
    requires
        channel < 16,
        key < 128,
        vel < 128,
    ensures
        r@ == seq![(144 + channel) as u8, key, vel],
{
    let ev = midly::live::LiveEvent::Midi {
        channel: channel.into(),
        message: midly::MidiMessage::NoteOn { key: key.into(), vel: vel.into() },
    };
    let mut buf: Vec<u8> = Vec::new();
    let _ = ev.write(&mut buf);
    buf
}

/// The wire bytes that start or stop a note on `channel`: a note-on at
/// full velocity, or a note-on at velocity zero, which MIDI treats as a
/// note-off.
pub fn note_swap(channel: u8, key: u8, on: bool) -> (r: Vec<u8>)
    requires
        channel < 16,
        key < 128,
    ensures
        r@ == seq![(144 + channel) as u8, key, (if on { 127u8 } else { 0u8 })],
{
    if on {
        encode_note_on(channel, key, 127)
    } else {
        encode_note_on(channel, key, 0)
    }
}

/// The two messages a note transition sends on channel 0, in order: the
/// previous note off (velocity-zero note-on), then the new note on at
/// full velocity.
pub fn note_change_messages(transition: &NoteTransition) -> (r: (Vec<u8>, Vec<u8>))
    requires
        transition.previous < 128,
        transition.new_note < 128,
    ensures
        r.0@ == seq![144u8, transition.previous, 0u8],
        r.1@ == seq![144u8, transition.new_note, 127u8],
{
    let off: Vec<u8> = note_swap(0, transition.previous, false);
    let on: Vec<u8> = note_swap(0, transition.new_note, true);
    (off, on)
}

} // verus!
