//! Cross-above edge detector.
//!
//! Fires exactly when the series moves from at-or-below the threshold to
//! strictly above it: an edge-triggered signal, not a level signal.

use vstd::prelude::*;
use crate::errors::TaError;
use crate::window::{keep_last, slide};
use crate::{Next, Period, Reset, State};

verus! {

/// The observable state of an edge detector: the fixed threshold and the
/// window of the at most two most recent samples, oldest to newest.
#[verifier::ext_equal]
pub ghost struct CrossView {
    pub threshold: i64,
    pub win: Seq<i64>,
}

/// The observable state a reset leaves behind: the threshold is kept and
/// the sample window is emptied, exactly the state fresh construction with
/// the same threshold establishes.
pub open spec fn reset_view(v: CrossView) -> CrossView {
    CrossView { threshold: v.threshold, win: Seq::<i64>::empty() }
}

/// A cross above fires iff two samples are held, the previous one was at or
/// below the threshold, and the current one is strictly above it.  Equality
/// at the boundary belongs to the not-yet-crossed side.
pub open spec fn cross_above_fires(win: Seq<i64>, threshold: i64) -> bool {
    win.len() >= 2 && win[0] <= threshold && win[1] > threshold
}

/// Detects when a time series crosses above a fixed threshold.
///
/// Holds a queue of the at most two most recent samples; until two samples
/// have been observed every advance returns `false`.
#[derive(Debug, Clone)]
pub struct CrossAbove {
    threshold: i64,
    deque: Vec<i64>,
}

impl View for CrossAbove {
    type V = CrossView;

    closed spec fn view(&self) -> CrossView {
        CrossView { threshold: self.threshold, win: self.deque@ }
    }
}

impl CrossAbove {
    /// Well-formed: never more than the two newest samples are retained.
    pub closed spec fn wf(&self) -> bool {
        self.deque@.len() <= 2
    }

    /// Construct a detector with the given threshold and an empty window.
    /// Never fails: every threshold is admissible.
    pub fn new(threshold: i64) -> (r: Result<Self, TaError>)
        ensures
            r matches Ok(s) && s.wf() && s@ == (CrossView {
                threshold,
                win: Seq::<i64>::empty(),
            }),
    {
        Ok(Self { threshold, deque: Vec::new() })
    }

    /// Rebuild a detector from persisted state.  An oversized persisted
    /// window is tolerated by dropping its oldest entries until at most the
    /// two newest remain; reconstruction never fails.
    pub fn from_state(threshold: i64, deque: Vec<i64>) -> (r: Result<Self, TaError>)
        ensures
            r matches Ok(s) && s.wf() && s@ == (CrossView {
                threshold,
                win: keep_last(deque@, 2),
            }),
    {
        let ghost orig: Seq<i64> = deque@;
        let mut d = deque;
        while d.len() > 2
            invariant
                keep_last(d@, 2) == keep_last(orig, 2),
            decreases d@.len(),
        {
            let ghost before: Seq<i64> = d@;
            d.remove(0);
            proof {
                assert(keep_last(d@, 2) =~= keep_last(before, 2));
            }
        }
        Ok(Self { threshold, deque: d })
    }

    /// How many samples the detector currently holds (at most two).  A
    /// snapshot via `state` needs a full two-sample window.
    pub fn samples_held(&self) -> (n: usize)
        ensures
            n == self@.win.len(),
    {
        self.deque.len()
    }
}

impl Default for CrossAbove {
    /// The default detector crosses against a zero threshold.
    fn default() -> (d: Self)
        ensures
            d.wf() && d@ == (CrossView { threshold: 0, win: Seq::<i64>::empty() }),
    {
        CrossAbove::new(0).unwrap()
    }
}

impl Period for CrossAbove {
    open spec fn spec_period(&self) -> int {
        2
    }

    fn period(&self) -> (p: usize) {
        2
    }
}

impl Next for CrossAbove {
    type Output = bool;

    open spec fn next_req(&self, input: i64) -> bool {
        self.wf()
    }

    open spec fn next_post(&self, input: i64, post: Self, r: bool) -> bool {
        &&& post.wf()
        &&& post@ == (CrossView {
            threshold: self@.threshold,
            win: slide(self@.win, input, 2),
        })
        &&& r == cross_above_fires(post@.win, self@.threshold)
    }

    fn next(&mut self, input: i64) -> (r: bool) {
        if self.deque.len() == 2 {
            self.deque.remove(0);
        }
        self.deque.push(input);
        proof {
            assert(self.deque@ =~= slide(old(self)@.win, input, 2));
        }
        if self.deque.len() < 2 {
            return false;
        }
        let prev = self.deque[0];
        let curr = self.deque[1];
        prev <= self.threshold && curr > self.threshold
    }
}

impl State for CrossAbove {
    type Output = (i64, i64, i64);

    open spec fn state_req(&self) -> bool {
        self.wf() && self@.win.len() == 2
    }

    open spec fn state_spec(&self) -> (i64, i64, i64) {
        (self@.threshold, self@.win[0], self@.win[1])
    }

    fn state(&self) -> (s: (i64, i64, i64)) {
        (self.threshold, self.deque[0], self.deque[1])
    }
}

impl Reset for CrossAbove {
    open spec fn reset_req(&self) -> bool {
        true
    }

    open spec fn reset_post(&self, post: Self) -> bool {
        post.wf() && post@ == reset_view(self@)
    }

    fn reset(&mut self) {
        self.deque.clear();
    }
}

/// A snapshot taken with `state` and fed back through `from_state` rebuilds
/// the original observable state exactly.  Since every later output of the
/// detector is a function of this state alone (see the `next` contract), the
/// rebuilt instance's outputs on any further input sequence coincide with
/// the original's.
pub proof fn lemma_state_roundtrip(v: CrossView)
    requires
        v.win.len() == 2,
    ensures
        (CrossView { threshold: v.threshold, win: keep_last(seq![v.win[0], v.win[1]], 2) }) == v,
{
    assert(keep_last(seq![v.win[0], v.win[1]], 2) =~= v.win);
    assert((CrossView { threshold: v.threshold, win: keep_last(seq![v.win[0], v.win[1]], 2) })
        =~= v);
}

/// Resetting twice leaves the same observable state as resetting once, and
/// a reset detector is in the state `new` establishes for its threshold:
/// reset is idempotent and matches fresh construction.
pub proof fn lemma_reset_idempotent(v: CrossView)
    ensures
        reset_view(reset_view(v)) == reset_view(v),
        reset_view(CrossView { threshold: v.threshold, win: Seq::<i64>::empty() }) == (CrossView {
            threshold: v.threshold,
            win: Seq::<i64>::empty(),
        }),
{
}

} // verus!
