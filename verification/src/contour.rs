//! The contour history: a fixed-capacity ring of recent `(timestamp,
//! frequency)` pairs kept by a visualization consumer.  An unvoiced
//! estimate is recorded with frequency zero, so the displayed contour
//! drops to the axis during silence.

use vstd::prelude::*;

use crate::frame::copy_vec;
use crate::frame::PitchEstimate;
use crate::ConfigError;

verus! {

/// Recent pitch contour points, oldest first, at most `capacity` kept.
pub struct ContourHistory {
    points: Vec<(u64, u64)>,
    cap: usize,
}

impl ContourHistory {
    /// The retained points, oldest first.
    pub closed spec fn view(&self) -> Seq<(u64, u64)> {
        self.points@
    }

    /// The fixed capacity chosen at construction.
    pub closed spec fn capacity(&self) -> nat {
        self.cap as nat
    }

    /// Never more points than the capacity, which is positive.
    pub closed spec fn wf(&self) -> bool {
        &&& self.cap >= 1
        &&& self.points@.len() <= self.cap as nat
    }

    /// Create a history that keeps the last `capacity` points.
    pub fn new(capacity: usize) -> (r: Result<ContourHistory, ConfigError>)
        ensures
            r is Ok <==> capacity >= 1,
            r matches Ok(h) ==> {
                &&& h.wf()
                &&& h@ == Seq::<(u64, u64)>::empty()
                &&& h.capacity() == capacity
            },
            r matches Err(e) ==> e == ConfigError::ZeroCapacity,
    {
        if capacity == 0 {
            return Err(ConfigError::ZeroCapacity);
        }
        Ok(ContourHistory { points: Vec::new(), cap: capacity })
    }

    /// The point an estimate contributes: its timestamp, and its
    /// frequency gated to zero when unvoiced.
    pub open spec fn point_of(est: PitchEstimate) -> (u64, u64) {
        (est.timestamp, if est.voiced { est.frequency } else { 0u64 })
    }

    /// Record one estimate, retiring the oldest point once full.
    pub fn record(&mut self, est: &PitchEstimate)
        requires
            old(self).wf(),
        ensures
            final(self).wf(),
            final(self).capacity() == old(self).capacity(),
            final(self)@ == (if old(self)@.len() < old(self).capacity() {
                old(self)@.push(ContourHistory::point_of(*est))
            } else {
                old(self)@.subrange(1, old(self)@.len() as int).push(
                    ContourHistory::point_of(*est),
                )
            }),
    {
        let freq: u64 = if est.voiced {
            est.frequency
        } else {
            0
        };
        if self.points.len() == self.cap {
            self.points.remove(0);
            proof {
                assert(self.points@ =~= old(self).points@.subrange(
                    1,
                    old(self).points@.len() as int,
                ));
            }
        }
        self.points.push((est.timestamp, freq));
    }

    /// A copy of the retained points, oldest first, for display.
    pub fn snapshot(&self) -> (r: Vec<(u64, u64)>)
        ensures
            r@ == self@,
    {
        copy_vec(&self.points)
    }
}

} // verus!
