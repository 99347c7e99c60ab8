//! Cross-below edge detector.
//!
//! Fires exactly when the series moves from at-or-above the threshold to
//! strictly below it: an edge-triggered signal, not a level signal.

use vstd::prelude::*;
use crate::errors::TaError;
use crate::indicators::cross_above::{reset_view, CrossView};
use crate::window::slide;
use crate::{Next, Period, Reset};

verus! {

/// A cross below fires iff two samples are held, the previous one was at or
/// above the threshold, and the current one is strictly below it.  Equality
/// at the boundary belongs to the not-yet-crossed side.
pub open spec fn cross_below_fires(win: Seq<i64>, threshold: i64) -> bool {
    win.len() >= 2 && win[0] >= threshold && win[1] < threshold
}

/// Detects when a time series crosses below a fixed threshold.
///
/// Holds a queue of the at most two most recent samples; until two samples
/// have been observed every advance returns `false`.
#[derive(Debug, Clone)]
pub struct CrossBelow {
    threshold: i64,
    deque: Vec<i64>,
}

impl View for CrossBelow {
    type V = CrossView;

    closed spec fn view(&self) -> CrossView {
        CrossView { threshold: self.threshold, win: self.deque@ }
    }
}

impl CrossBelow {
    /// Well-formed: never more than the two newest samples are retained.
    pub closed spec fn wf(&self) -> bool {
        self.deque@.len() <= 2
    }

    /// Construct a detector with the given threshold and an empty window.
    /// Never fails: every threshold is admissible.
    pub fn new(threshold: i64) -> (r: Result<Self, TaError>)
        ensures
            r matches Ok(s) && s.wf() && s@ == (CrossView {
                threshold,
                win: Seq::<i64>::empty(),
            }),
    {
        Ok(Self { threshold, deque: Vec::new() })
    }
}

impl Default for CrossBelow {
    /// The default detector crosses against a zero threshold.
    fn default() -> (d: Self)
        ensures
            d.wf() && d@ == (CrossView { threshold: 0, win: Seq::<i64>::empty() }),
    {
        CrossBelow::new(0).unwrap()
    }
}

impl Period for CrossBelow {
    open spec fn spec_period(&self) -> int {
        2
    }

    fn period(&self) -> (p: usize) {
        2
    }
}

impl Next for CrossBelow {
    type Output = bool;

    open spec fn next_req(&self, input: i64) -> bool {
        self.wf()
    }

    open spec fn next_post(&self, input: i64, post: Self, r: bool) -> bool {
        &&& post.wf()
        &&& post@ == (CrossView {
            threshold: self@.threshold,
            win: slide(self@.win, input, 2),
        })
        &&& r == cross_below_fires(post@.win, self@.threshold)
    }

    fn next(&mut self, input: i64) -> (r: bool) {
        if self.deque.len() == 2 {
            self.deque.remove(0);
        }
        self.deque.push(input);
        proof {
            assert(self.deque@ =~= slide(old(self)@.win, input, 2));
        }
        if self.deque.len() < 2 {
            return false;
        }
        let prev = self.deque[0];
        let curr = self.deque[1];
        prev >= self.threshold && curr < self.threshold
    }
}

impl Reset for CrossBelow {
    open spec fn reset_req(&self) -> bool {
        true
    }

    open spec fn reset_post(&self, post: Self) -> bool {
        post.wf() && post@ == reset_view(self@)
    }

    fn reset(&mut self) {
        self.deque.clear();
    }
}

} // verus!
