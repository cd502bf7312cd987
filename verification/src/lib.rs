//! A real-time monophonic pitch estimation and distribution pipeline.
//!
//! The crate models a live audio front end: a broadcast bus fans captured
//! sample frames out to independently paced consumers, a Goertzel filter
//! bank estimates the fundamental frequency of each analysis window, and a
//! debounced note emitter turns the noisy frequency stream into discrete
//! MIDI note-change events.
//!
//! All signal values are carried as fixed-point integers: amplitudes and
//! frequencies are scaled by 2^16, trigonometric quantities by 2^30.

use vstd::prelude::*;

pub mod bus;
pub mod contour;
pub mod emitter;
pub mod estimator;
pub mod fixedpoint;
pub mod goertzel;
pub mod frame;
pub mod notes;

verus! {

/// A configuration parameter was invalid; construction fails fast, before
/// any audio is processed.
#[derive(Clone, Copy, Debug, PartialEq, Eq, Structural)]
pub enum ConfigError {
    /// The sample rate was zero.
    ZeroSampleRate,
    /// The configured frame length was zero.
    ZeroFrameLength,
    /// The filter bank was configured with no bands.
    ZeroBands,
    /// The filter bank was configured with more bands than supported.
    TooManyBands,
    /// The analysis window was configured to hold no frames.
    ZeroWindowFrames,
    /// The note smoothing window was configured with no slots.
    ZeroSmoothing,
    /// The note smoothing window was configured longer than supported.
    SmoothingTooLong,
    /// A bounded buffer was configured with capacity zero.
    ZeroCapacity,
    /// A band or note frequency left the representable fixed-point range.
    FrequencyOutOfRange,
    /// A frame's timestamps would run past the representable time range.
    TimeOutOfRange,
    /// The analysis window was configured longer than supported.
    WindowTooLong,
}

} // verus!
