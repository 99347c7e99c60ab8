//! Lowest low value: the minimum over a fixed-length sliding window.
//!
//! The mirror image of the highest-high tracker: the same circular buffer,
//! cursor, and saturating fill counter, seeded with the high sentinel and
//! folded with minimum instead of maximum.

use vstd::prelude::*;
use vstd::pervasive::VecAdditionalExecFns;
use crate::errors::TaError;
use crate::indicators::highest_high_value::{reset_tracker_view, TrackerView};
use crate::window::{is_min_of, keep_last, slide, wrap_at};
use crate::{Next, Period, Reset};

verus! {

/// Computes the lowest value over the last `min(period, samples seen)`
/// observations of a time series.
#[derive(Debug, Clone)]
pub struct LowestLowValue {
    period: usize,
    index: usize,
    count: usize,
    deque: Vec<i64>,
}

impl View for LowestLowValue {
    type V = TrackerView;

    closed spec fn view(&self) -> TrackerView {
        TrackerView {
            period: self.period,
            win: if self.count < self.period {
                self.deque@.take(self.count as int)
            } else {
                Seq::new(
                    self.period as nat,
                    |j: int| self.deque@[wrap_at(self.index + j, self.period as int)],
                )
            },
        }
    }
}

impl LowestLowValue {
    /// Well-formed: the buffer has exactly `period >= 1` slots, the cursor
    /// stays inside it, the fill counter saturates at `period`, and until
    /// the window fills the cursor equals the fill counter.
    pub closed spec fn wf(&self) -> bool {
        &&& self.period >= 1
        &&& self.deque@.len() == self.period
        &&& self.index < self.period
        &&& self.count <= self.period
        &&& self.count < self.period ==> self.index == self.count
    }

    /// Construct a tracker over a window of `period` samples, every slot
    /// seeded with the high sentinel.  Fails with `InvalidParameter` exactly
    /// when `period` is zero.
    pub fn new(period: usize) -> (r: Result<Self, TaError>)
        ensures
            period == 0 ==> (r matches Err(e) && e == TaError::InvalidParameter),
            period >= 1 ==> (r matches Ok(s) && s.wf() && s@ == (TrackerView {
                period,
                win: Seq::<i64>::empty(),
            })),
    {
        match period {
            0 => Err(TaError::InvalidParameter),
            _ => {
                let s = Self { period, index: 0, count: 0, deque: vec![i64::MAX; period] };
                proof {
                    assert(s@.win =~= Seq::<i64>::empty());
                }
                Ok(s)
            },
        }
    }

    /// Rebuild a tracker from persisted state: the declared period and the
    /// held window, oldest to newest.  An oversized persisted window is
    /// tolerated by dropping its oldest entries until at most the newest
    /// `period` remain; only a zero period fails.
    pub fn from_state(period: usize, values: Vec<i64>) -> (r: Result<Self, TaError>)
        ensures
            period == 0 ==> (r matches Err(e) && e == TaError::InvalidParameter),
            period >= 1 ==> (r matches Ok(s) && s.wf() && s@ == (TrackerView {
                period,
                win: keep_last(values@, period as int),
            })),
    {
        if period == 0 {
            return Err(TaError::InvalidParameter);
        }
        let ghost orig: Seq<i64> = values@;
        let mut vals = values;
        while vals.len() > period
            invariant
                keep_last(vals@, period as int) == keep_last(orig, period as int),
                period >= 1,
            decreases vals@.len(),
        {
            let ghost before: Seq<i64> = vals@;
            vals.remove(0);
            proof {
                assert(keep_last(vals@, period as int) =~= keep_last(before, period as int));
            }
        }
        let n = vals.len();
        let ghost kept: Seq<i64> = vals@;
        let mut buf = vals;
        proof {
            assert(buf@.take(n as int) =~= kept);
        }
        while buf.len() < period
            invariant
                n == kept.len(),
                n <= buf@.len() <= period,
                buf@.take(n as int) == kept,
            decreases period - buf@.len(),
        {
            buf.push(i64::MAX);
            proof {
                assert(buf@.take(n as int) =~= kept);
            }
        }
        let index = if n < period {
            n
        } else {
            0
        };
        let s = Self { period, index, count: n, deque: buf };
        proof {
            if n < period {
                assert(s@.win =~= kept);
            } else {
                assert(s@.win =~= kept) by {
                    assert forall|j: int| 0 <= j < period implies s@.win[j] == kept[j] by {
                        assert(wrap_at(0 + j, period as int) == j);
                    }
                }
            }
        }
        Ok(s)
    }

    /// The current internal state as plain values: the declared period and
    /// the held window, oldest to newest.  Side-effect-free.
    pub fn state(&self) -> (s: (usize, Vec<i64>))
        requires
            self.wf(),
        ensures
            s.0 == self@.period,
            s.1@ == self@.win,
    {
        let mut out: Vec<i64> = Vec::new();
        let mut k: usize = 0;
        while k < self.count
            invariant
                self.wf(),
                k <= self.count,
                out@.len() == k,
                forall|j: int| 0 <= j < k ==> out@[j] == self@.win[j],
            decreases self.count - k,
        {
            let pos = if self.count < self.period {
                k
            } else {
                if k < self.period - self.index {
                    self.index + k
                } else {
                    k - (self.period - self.index)
                }
            };
            out.push(self.deque[pos]);
            k = k + 1;
        }
        proof {
            assert(out@ =~= self@.win);
        }
        (self.period, out)
    }
}

impl Default for LowestLowValue {
    /// The default tracker watches a window of seven samples.
    fn default() -> (d: Self)
        ensures
            d.wf() && d@ == (TrackerView { period: 7, win: Seq::<i64>::empty() }),
    {
        LowestLowValue::new(7).unwrap()
    }
}

impl Period for LowestLowValue {
    open spec fn spec_period(&self) -> int {
        self@.period as int
    }

    fn period(&self) -> (p: usize) {
        self.period
    }
}

impl Next for LowestLowValue {
    type Output = i64;

    open spec fn next_req(&self, input: i64) -> bool {
        self.wf()
    }

    open spec fn next_post(&self, input: i64, post: Self, r: i64) -> bool {
        &&& post.wf()
        &&& post@.period == self@.period
        &&& post@.win == slide(self@.win, input, self@.period as int)
        &&& is_min_of(r, post@.win)
    }

    fn next(&mut self, input: i64) -> (r: i64) {
        let ghost pre = *self;
        let p = self.period;
        self.deque.set(self.index, input);
        self.index = if self.index + 1 < p {
            self.index + 1
        } else {
            0
        };
        if self.count < p {
            self.count = self.count + 1;
        }
        proof {
            lemma_tracker_step(pre, *self, input);
        }
        let mut m: i64 = i64::MAX;
        let mut k: usize = 0;
        while k < self.count
            invariant
                self.wf(),
                1 <= self.count <= self.period,
                k <= self.count,
                k == 0 ==> m == i64::MAX,
                k >= 1 ==> is_min_of(m, self.deque@.take(k as int)),
            decreases self.count - k,
        {
            let v = self.deque[k];
            if v < m {
                m = v;
            }
            k = k + 1;
            proof {
                assert(self.deque@.take(k as int) =~= self.deque@.take(k - 1).push(v));
                assert(self.deque@.take(k as int)[k - 1] == v);
            }
        }
        proof {
            lemma_prefix_min_is_window_min(*self, m);
        }
        m
    }
}

impl Reset for LowestLowValue {
    open spec fn reset_req(&self) -> bool {
        self.wf()
    }

    open spec fn reset_post(&self, post: Self) -> bool {
        post.wf() && post@ == reset_tracker_view(self@)
    }

    fn reset(&mut self) {
        self.index = 0;
        self.count = 0;
        let mut i: usize = 0;
        while i < self.period
            invariant
                self.period == old(self).period,
                self.deque@.len() == self.period,
                self.period >= 1,
                self.index == 0,
                self.count == 0,
                i <= self.period,
            decreases self.period - i,
        {
            self.deque.set(i, i64::MAX);
            i = i + 1;
        }
        proof {
            assert(self@.win =~= Seq::<i64>::empty());
        }
    }
}

/// Writing the new sample at the cursor, advancing the cursor with wrap,
/// and saturating the fill counter slides the held window by one sample.
proof fn lemma_tracker_step(pre: LowestLowValue, post: LowestLowValue, input: i64)
    requires
        pre.wf(),
        post.period == pre.period,
        post.deque@ == pre.deque@.update(pre.index as int, input),
        post.index == wrap_at(pre.index + 1, pre.period as int),
        post.count == if pre.count < pre.period {
            pre.count + 1
        } else {
            pre.count as int
        },
    ensures
        post.wf(),
        post@.win == slide(pre@.win, input, pre.period as int),
{
    let p = pre.period as int;
    if pre.count < pre.period {
        if post.count < post.period {
            assert(post@.win =~= pre@.win.push(input));
        } else {
            assert(post@.win =~= pre@.win.push(input)) by {
                assert forall|j: int| 0 <= j < p implies post@.win[j] == pre@.win.push(input)[j]
                by {
                    assert(wrap_at(post.index + j, p) == j);
                }
            }
        }
    } else {
        assert(post@.win =~= pre@.win.skip(1).push(input)) by {
            assert forall|j: int| 0 <= j < p implies post@.win[j] == pre@.win.skip(1).push(
                input,
            )[j] by {
                let s = wrap_at(post.index + j, p);
                if j < p - 1 {
                    assert(s == wrap_at(pre.index + (j + 1), p));
                    assert(s != pre.index);
                    assert(pre@.win.skip(1).push(input)[j] == pre@.win[j + 1]);
                } else {
                    assert(s == pre.index);
                }
            }
        }
    }
}

/// The minimum of the filled prefix of the buffer is the minimum of the
/// held window: the two hold the same elements, rotated.
proof fn lemma_prefix_min_is_window_min(post: LowestLowValue, m: i64)
    requires
        post.wf(),
        post.count >= 1,
        is_min_of(m, post.deque@.take(post.count as int)),
    ensures
        is_min_of(m, post@.win),
{
    let p = post.period as int;
    let c = post.count as int;
    let prefix = post.deque@.take(c);
    if post.count < post.period {
        assert(post@.win == prefix);
    } else {
        assert forall|j: int| 0 <= j < post@.win.len() implies m <= post@.win[j] by {
            let s = wrap_at(post.index + j, p);
            assert(prefix[s] == post.deque@[s]);
        }
        let j0 = choose|j: int| 0 <= j < prefix.len() && prefix[j] == m;
        let jw = if j0 >= post.index {
            j0 - post.index
        } else {
            j0 + p - post.index
        };
        assert(post@.win[jw] == m);
    }
}

} // verus!
