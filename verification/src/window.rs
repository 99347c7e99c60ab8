//! The shared mathematical model of a sliding window: how a bounded window
//! evolves as samples arrive, and what the extremum of a window is.

use vstd::prelude::*;

verus! {

/// One step of a bounded FIFO window of capacity `cap`: append the new
/// sample, evicting the oldest one if the window is already full.
pub open spec fn slide(win: Seq<i64>, x: i64, cap: int) -> Seq<i64> {
    if win.len() < cap {
        win.push(x)
    } else {
        win.skip(1).push(x)
    }
}

/// The window held after feeding `inputs`, oldest to newest, into an
/// initially empty window of capacity `cap`.
pub open spec fn window_after(inputs: Seq<i64>, cap: int) -> Seq<i64>
    decreases inputs.len(),
{
    if inputs.len() == 0 {
        Seq::empty()
    } else {
        slide(window_after(inputs.drop_last(), cap), inputs.last(), cap)
    }
}

/// A write cursor one past position `k`, wrapped back into a buffer of
/// length `p`; defined for `0 <= k < 2 * p`.
pub open spec fn wrap_at(k: int, p: int) -> int {
    if k < p {
        k
    } else {
        k - p
    }
}

/// `m` is the maximum of `s`: it occurs in `s` and bounds every element.
pub open spec fn is_max_of(m: i64, s: Seq<i64>) -> bool {
    &&& s.contains(m)
    &&& forall|j: int| 0 <= j < s.len() ==> s[j] <= m
}

/// `m` is the minimum of `s`: it occurs in `s` and is below every element.
pub open spec fn is_min_of(m: i64, s: Seq<i64>) -> bool {
    &&& s.contains(m)
    &&& forall|j: int| 0 <= j < s.len() ==> m <= s[j]
}

/// The window length never exceeds the capacity or the number of samples
/// seen, and equals whichever is smaller.
pub proof fn lemma_window_after_len(inputs: Seq<i64>, cap: int)
    requires
        cap >= 1,
    ensures
        window_after(inputs, cap).len() == if inputs.len() <= cap {
            inputs.len() as int
        } else {
            cap
        },
    decreases inputs.len(),
{
    if inputs.len() > 0 {
        lemma_window_after_len(inputs.drop_last(), cap);
    }
}

/// A window of capacity `cap` fed any sequence holds exactly the last
/// `min(cap, t)` samples, in arrival order, after `t` samples.
///
/// Together with the extremum trackers' `next` contracts, which pin the
/// reported value as the exact maximum (or minimum) of the held window, this
/// says that at every step the reported value is the true extremum of the
/// last `min(period, t)` inputs.
pub proof fn lemma_window_after_is_suffix(inputs: Seq<i64>, cap: int)
    requires
        cap >= 1,
    ensures
        window_after(inputs, cap) == if inputs.len() <= cap {
            inputs
        } else {
            inputs.skip(inputs.len() - cap)
        },
    decreases inputs.len(),
{
    lemma_window_after_len(inputs, cap);
    if inputs.len() == 0 {
        assert(window_after(inputs, cap) =~= inputs);
    } else {
        let head = inputs.drop_last();
        lemma_window_after_is_suffix(head, cap);
        lemma_window_after_len(head, cap);
        if inputs.len() <= cap {
            assert(window_after(inputs, cap) =~= inputs);
        } else if head.len() == cap {
            assert(window_after(inputs, cap) =~= inputs.skip(inputs.len() - cap));
        } else {
            assert(window_after(inputs, cap) =~= inputs.skip(inputs.len() - cap));
        }
    }
}

/// The extremum law, composed: a tracker of capacity `cap` fed `inputs` one
/// by one holds `window_after(inputs, cap)` (each advance slides the window
/// by exactly one sample, per its contract), so a reported value that is
/// the maximum of the held window is the true maximum of the last
/// `min(cap, t)` inputs; symmetrically for the minimum.
pub proof fn lemma_reported_extremum_is_true_extremum(inputs: Seq<i64>, cap: int, r: i64)
    requires
        cap >= 1,
    ensures
        is_max_of(r, window_after(inputs, cap)) ==> is_max_of(
            r,
            if inputs.len() <= cap {
                inputs
            } else {
                inputs.skip(inputs.len() - cap)
            },
        ),
        is_min_of(r, window_after(inputs, cap)) ==> is_min_of(
            r,
            if inputs.len() <= cap {
                inputs
            } else {
                inputs.skip(inputs.len() - cap)
            },
        ),
{
    lemma_window_after_is_suffix(inputs, cap);
}

/// Normalization of persisted state: keep only the newest `cap` entries of a
/// possibly oversized buffer, never failing.
pub open spec fn keep_last(s: Seq<i64>, cap: int) -> Seq<i64> {
    if s.len() <= cap {
        s
    } else {
        s.skip(s.len() - cap)
    }
}

/// A persisted window that is already within capacity is kept exactly: a
/// snapshot of a live indicator (whose window never exceeds its capacity),
/// fed back through its reconstruction path, rebuilds the original
/// observable window.  Since every later output is a function of the
/// observable state alone (see the `next` contracts), the rebuilt instance
/// behaves identically to the original on any further input sequence.
pub proof fn lemma_keep_last_within_capacity(s: Seq<i64>, cap: int)
    requires
        s.len() <= cap,
    ensures
        keep_last(s, cap) == s,
{
}

/// Truncating to the newest `cap` entries is idempotent: reloading a state
/// that was already within capacity changes nothing.
pub proof fn lemma_keep_last_idempotent(s: Seq<i64>, cap: int)
    requires
        cap >= 0,
    ensures
        keep_last(keep_last(s, cap), cap) == keep_last(s, cap),
{
    if s.len() > cap {
        assert(keep_last(s, cap).len() == cap);
    }
}

} // verus!
