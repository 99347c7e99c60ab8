//! Streaming technical-analysis indicators over integer-valued samples.
//!
//! Each indicator consumes one observation per call and produces an updated
//! statistic without re-scanning history: edge detection against a fixed
//! threshold, extremum tracking over a fixed-length circular window, and
//! one-step-ahead linear-regression forecasting with precomputed regressor
//! moments.  Every indicator exposes the same capability set: advance with a
//! new sample, report its declared window length, and reset to its
//! construction-time state.

pub mod arith;
pub mod errors;
pub mod indicators;
pub mod ratio;
pub mod window;

use vstd::prelude::*;

verus! {

/// Declarative window metadata: how many of the most recent samples the
/// indicator's output depends on.
pub trait Period {
    /// The declared window length, as contracts see it.
    spec fn spec_period(&self) -> int;

    /// The window length the indicator requires to produce a fully primed
    /// result.  Pure; callable at any time.
    fn period(&self) -> (p: usize)
        ensures
            p as int == self.spec_period(),
    ;
}

/// The hot path of every indicator: consume one observation, produce the
/// updated statistic.  Each implementor states its exact behaviour through
/// `next_req` (when a call is admitted) and `next_post` (how the state
/// evolves and what the result is).
pub trait Next: Sized {
    /// What one advance returns: a signal, an extremum, a forecast.
    type Output;

    /// When an advance is admitted: the instance is well formed and the
    /// sample lies within the implementor's arithmetic domain.
    spec fn next_req(&self, input: i64) -> bool;

    /// The exact contract of one advance: relates the prior state, the
    /// sample, the successor state, and the returned value.
    spec fn next_post(&self, input: i64, post: Self, r: Self::Output) -> bool;

    /// Advance the indicator with one new sample.
    fn next(&mut self, input: i64) -> (r: Self::Output)
        requires
            old(self).next_req(input),
        ensures
            old(self).next_post(input, *final(self), r),
    ;
}

/// Restoring the construction-time state without reallocation.
pub trait Reset: Sized {
    /// When a reset is admitted: the instance is well formed.
    spec fn reset_req(&self) -> bool;

    /// The exact contract of a reset: the successor state is the
    /// construction-time state for the same configuration.
    spec fn reset_post(&self, post: Self) -> bool;

    /// Restore the state to the exact condition after construction.
    fn reset(&mut self)
        requires
            old(self).reset_req(),
        ensures
            old(self).reset_post(*final(self)),
    ;
}

/// Side-effect-free introspection of the internal state, for inspection and
/// persistence.  Not every indicator offers it.
pub trait State {
    /// The snapshot: plain values sufficient to rebuild the instance.
    type Output;

    /// When a snapshot is admitted (some snapshots need a primed window).
    spec fn state_req(&self) -> bool;

    /// The value the snapshot must equal.
    spec fn state_spec(&self) -> Self::Output;

    /// Return the current internal values.
    fn state(&self) -> (s: Self::Output)
        requires
            self.state_req(),
        ensures
            s == self.state_spec(),
    ;
}

} // verus!
