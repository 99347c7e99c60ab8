//! Linear-regression forecaster: one-step-ahead extrapolation.
//!
//! Fits a least-squares line through the held samples, pairing them with the
//! precomputed regressor positions `1..=period`, and extrapolates one step
//! past the current window length.  The regressor positions and their mean
//! are computed once at construction and never recomputed; the prediction is
//! returned as an exact rational, with no rounding.
//!
//! With held samples `y` of length `n`, sum `S`, regressor deviations
//! doubled into `c_j = 2 * (j + 1) - period - 1`, deviation square sum
//! `V = sum c_j^2` and cross sum `C = sum c_j * (n * y_j - S)`, the
//! prediction `slope * (n + 1) + intercept` equals
//! `(S * V + C * (2 * n + 1 - period)) / (n * V)` when `V` is nonzero, and
//! degenerates to the sample mean `S / n` when it is zero.

use vstd::prelude::*;
use crate::arith::{lemma_abs_mul_le, lemma_mul_pos, lemma_square_nonneg};
use crate::errors::TaError;
use crate::ratio::{Ratio, DEN_MAX, NUM_MAX};
use crate::window::{keep_last, slide};
use crate::{Next, Period, Reset};

verus! {

/// The largest admissible window length: keeps the exact integer moments of
/// any admissible window comfortably inside 128-bit arithmetic.
pub const MAX_PERIOD: usize = 4096;

/// The largest admissible sample magnitude: keeps the exact integer moments
/// of any admissible window comfortably inside 128-bit arithmetic.
pub const MAX_SAMPLE: i64 = 2147483648;

/// The observable state of a forecaster: its declared period and the held
/// window of the most recent samples, oldest to newest.
#[verifier::ext_equal]
pub ghost struct LrpView {
    pub period: usize,
    pub win: Seq<i64>,
}

/// The observable state a reset leaves behind: the period (and with it the
/// precomputed regressor moments) is kept and the sample window is emptied,
/// exactly the state fresh construction with the same period establishes.
pub open spec fn reset_lrp_view(v: LrpView) -> LrpView {
    LrpView { period: v.period, win: Seq::<i64>::empty() }
}

/// Resetting twice leaves the same observable state as resetting once, and
/// a reset forecaster is in the state `new` establishes for its period:
/// reset is idempotent and matches fresh construction.
pub proof fn lemma_lrp_reset_idempotent(v: LrpView)
    ensures
        reset_lrp_view(reset_lrp_view(v)) == reset_lrp_view(v),
        reset_lrp_view(LrpView { period: v.period, win: Seq::<i64>::empty() }) == (LrpView {
            period: v.period,
            win: Seq::<i64>::empty(),
        }),
{
}

/// The sum of a sequence of samples.
pub open spec fn sum_of(s: Seq<i64>) -> int
    decreases s.len(),
{
    if s.len() == 0 {
        0
    } else {
        sum_of(s.drop_last()) + s.last()
    }
}

/// Twice the deviation of the regressor position `j + 1` from the fixed
/// regressor mean `(p + 1) / 2`.
pub open spec fn c_at(p: int, j: int) -> int {
    2 * j + 1 - p
}

/// The sum of squared (doubled) regressor deviations over the first `n`
/// positions: four times the regressor variance sum.
pub open spec fn vsum(p: int, n: int) -> int
    decreases n,
{
    if n <= 0 {
        0
    } else {
        vsum(p, n - 1) + c_at(p, n - 1) * c_at(p, n - 1)
    }
}

/// The partial cross sum of (doubled) regressor deviations against
/// (count-scaled) response deviations, over the first `k` held samples.
pub open spec fn cpart(p: int, ys: Seq<i64>, k: int) -> int
    decreases k,
{
    if k <= 0 {
        0
    } else {
        cpart(p, ys, k - 1) + c_at(p, k - 1) * (ys.len() * ys[k - 1] - sum_of(ys))
    }
}

/// The full cross sum over the held samples.
pub open spec fn csum(p: int, ys: Seq<i64>) -> int {
    cpart(p, ys, ys.len() as int)
}

/// The numerator of the exact one-step-ahead prediction for window `ys`
/// under period `p`.  When the regressor variance degenerates the slope is
/// zero and the prediction is the sample mean.
pub open spec fn forecast_num(p: int, ys: Seq<i64>) -> int {
    if vsum(p, ys.len() as int) == 0 {
        sum_of(ys)
    } else {
        sum_of(ys) * vsum(p, ys.len() as int) + csum(p, ys) * (2 * ys.len() + 1 - p)
    }
}

/// The denominator of the exact one-step-ahead prediction.
pub open spec fn forecast_den(p: int, ys: Seq<i64>) -> int {
    if vsum(p, ys.len() as int) == 0 {
        ys.len() as int
    } else {
        ys.len() * vsum(p, ys.len() as int)
    }
}

/// Predicts the next value of a time series by linear extrapolation over
/// the last `min(period, samples seen)` observations.
#[derive(Debug, Clone)]
pub struct LinearRegressionPrediction {
    period: usize,
    deque: Vec<i64>,
    x: Vec<i64>,
    two_mean_x: i64,
}

impl View for LinearRegressionPrediction {
    type V = LrpView;

    closed spec fn view(&self) -> LrpView {
        LrpView { period: self.period, win: self.deque@ }
    }
}

impl LinearRegressionPrediction {
    /// Well-formed: the window never exceeds the period, every held sample
    /// is within the arithmetic domain, and the regressor positions and
    /// doubled regressor mean are the fixed values derived from the period.
    pub closed spec fn wf(&self) -> bool {
        &&& 1 <= self.period <= MAX_PERIOD
        &&& self.deque@.len() <= self.period
        &&& forall|j: int|
            0 <= j < self.deque@.len() ==> -MAX_SAMPLE <= #[trigger] self.deque@[j] <= MAX_SAMPLE
        &&& self.x@.len() == self.period
        &&& forall|j: int| 0 <= j < self.x@.len() ==> self.x@[j] == j + 1
        &&& self.two_mean_x == self.period + 1
    }

    /// Construct a forecaster over a window of `period` samples, with the
    /// regressor positions `1..=period` and their doubled mean precomputed.
    /// Fails with `InvalidParameter` exactly when `period` is zero.
    pub fn new(period: usize) -> (r: Result<Self, TaError>)
        requires
            period <= MAX_PERIOD,
        ensures
            period == 0 ==> (r matches Err(e) && e == TaError::InvalidParameter),
            period >= 1 ==> (r matches Ok(s) && s.wf() && s@ == (LrpView {
                period,
                win: Seq::<i64>::empty(),
            })),
    {
        if period == 0 {
            return Err(TaError::InvalidParameter);
        }
        let mut x: Vec<i64> = Vec::new();
        let mut j: usize = 0;
        while j < period
            invariant
                j <= period,
                period <= MAX_PERIOD,
                x@.len() == j,
                forall|i: int| 0 <= i < j ==> x@[i] == i + 1,
            decreases period - j,
        {
            x.push((j + 1) as i64);
            j = j + 1;
        }
        let two_mean_x = (period as i64) + 1;
        Ok(Self { period, deque: Vec::new(), x, two_mean_x })
    }

    /// Rebuild a forecaster from persisted state: the declared period and
    /// the held window, oldest to newest.  An oversized persisted window is
    /// tolerated by dropping its oldest entries until at most the newest
    /// `period` remain; only a zero period fails.  The regressor moments
    /// are recomputed from the period alone, as at construction.
    pub fn from_state(period: usize, values: Vec<i64>) -> (r: Result<Self, TaError>)
        requires
            period <= MAX_PERIOD,
            forall|j: int|
                0 <= j < values@.len() ==> -MAX_SAMPLE <= #[trigger] values@[j] <= MAX_SAMPLE,
        ensures
            period == 0 ==> (r matches Err(e) && e == TaError::InvalidParameter),
            period >= 1 ==> (r matches Ok(s) && s.wf() && s@ == (LrpView {
                period,
                win: keep_last(values@, period as int),
            })),
    {
        let mut s = match Self::new(period) {
            Ok(s) => s,
            Err(e) => {
                return Err(e);
            },
        };
        let ghost orig: Seq<i64> = values@;
        let mut vals = values;
        while vals.len() > period
            invariant
                period >= 1,
                keep_last(vals@, period as int) == keep_last(orig, period as int),
                forall|j: int|
                    0 <= j < vals@.len() ==> -MAX_SAMPLE <= #[trigger] vals@[j] <= MAX_SAMPLE,
            decreases vals@.len(),
        {
            let ghost before: Seq<i64> = vals@;
            vals.remove(0);
            proof {
                assert(keep_last(vals@, period as int) =~= keep_last(before, period as int));
                assert forall|j: int|
                    0 <= j < vals@.len() implies -MAX_SAMPLE <= #[trigger] vals@[j]
                    <= MAX_SAMPLE by {
                    assert(vals@[j] == before[j + 1]);
                }
            }
        }
        s.deque = vals;
        Ok(s)
    }

    /// The current internal state as plain values: the declared period and
    /// the held window, oldest to newest.  Side-effect-free.
    pub fn state(&self) -> (s: (usize, Vec<i64>))
        requires
            self.wf(),
        ensures
            s.0 == self@.period,
            s.1@ == self@.win,
    {
        let mut out: Vec<i64> = Vec::new();
        let mut k: usize = 0;
        while k < self.deque.len()
            invariant
                self.wf(),
                k <= self.deque@.len(),
                out@ == self.deque@.take(k as int),
            decreases self.deque@.len() - k,
        {
            let v = self.deque[k];
            out.push(v);
            k = k + 1;
            proof {
                assert(self.deque@.take(k as int) =~= self.deque@.take(k - 1).push(v));
            }
        }
        proof {
            assert(self.deque@.take(self.deque@.len() as int) =~= self.deque@);
        }
        (self.period, out)
    }
}

impl Default for LinearRegressionPrediction {
    /// The default forecaster extrapolates over a window of nine samples.
    fn default() -> (d: Self)
        ensures
            d.wf() && d@ == (LrpView { period: 9, win: Seq::<i64>::empty() }),
    {
        LinearRegressionPrediction::new(9).unwrap()
    }
}

impl Period for LinearRegressionPrediction {
    open spec fn spec_period(&self) -> int {
        self@.period as int
    }

    fn period(&self) -> (p: usize) {
        self.period
    }
}

impl Next for LinearRegressionPrediction {
    type Output = Ratio;

    open spec fn next_req(&self, input: i64) -> bool {
        self.wf() && -MAX_SAMPLE <= input <= MAX_SAMPLE
    }

    open spec fn next_post(&self, input: i64, post: Self, r: Ratio) -> bool {
        &&& post.wf()
        &&& post@.period == self@.period
        &&& post@.win == slide(self@.win, input, self@.period as int)
        &&& r.num == forecast_num(self@.period as int, post@.win)
        &&& r.den == forecast_den(self@.period as int, post@.win)
        &&& 1 <= r.den <= DEN_MAX
        &&& -NUM_MAX <= r.num <= NUM_MAX
    }

    fn next(&mut self, input: i64) -> (r: Ratio) {
        if self.deque.len() == self.period {
            self.deque.remove(0);
        }
        self.deque.push(input);
        proof {
            assert(self.deque@ =~= slide(old(self)@.win, input, old(self).period as int));
        }
        let n = self.deque.len();
        let ghost ys = self.deque@;
        let ghost p_i = self.period as int;

        let mut s: i128 = 0;
        let mut k: usize = 0;
        while k < n
            invariant
                self.wf(),
                self.deque@ == ys,
                n == ys.len(),
                1 <= n <= self.period,
                self.period <= MAX_PERIOD,
                k <= n,
                s == sum_of(ys.take(k as int)),
                -(k as int) * 2147483648 <= s <= (k as int) * 2147483648,
            decreases n - k,
        {
            s = s + (self.deque[k] as i128);
            k = k + 1;
            proof {
                assert(ys.take(k as int).drop_last() =~= ys.take(k - 1));
            }
        }
        proof {
            assert(ys.take(n as int) =~= ys);
        }

        let mut v: i128 = 0;
        let mut c: i128 = 0;
        k = 0;
        while k < n
            invariant
                self.wf(),
                self.deque@ == ys,
                n == ys.len(),
                1 <= n <= self.period,
                self.period <= MAX_PERIOD,
                p_i == self.period as int,
                k <= n,
                s == sum_of(ys),
                -8796093022208 <= s <= 8796093022208,
                v == vsum(p_i, k as int),
                c == cpart(p_i, ys, k as int),
                0 <= v <= (k as int) * 16777216,
                -(k as int) * 72057594037927936 <= c <= (k as int) * 72057594037927936,
            decreases n - k,
        {
            let xi = self.x[k];
            let ci = 2 * xi - self.two_mean_x;
            let ci128 = ci as i128;
            let yk = self.deque[k] as i128;
            proof {
                assert(ci == c_at(p_i, k as int));
                assert(-4096 <= ci <= 4096);
                lemma_abs_mul_le(n as int, yk as int, 4096, 2147483648);
                lemma_abs_mul_le(ci as int, ci as int, 4096, 4096);
                lemma_square_nonneg(ci as int);
            }
            let dy = (n as i128) * yk - s;
            proof {
                lemma_abs_mul_le(ci as int, dy as int, 4096, 17592186044416);
            }
            c = c + ci128 * dy;
            v = v + ci128 * ci128;
            k = k + 1;
        }

        let out = if v == 0 {
            Ratio { num: s, den: n as i128 }
        } else {
            let t: i128 = 2 * (n as i128) + 1 - (self.period as i128);
            proof {
                lemma_abs_mul_le(s as int, v as int, 8796093022208, 68719476736);
                lemma_abs_mul_le(c as int, t as int, 295147905179352825856, 8193);
                lemma_mul_pos(n as int, v as int);
                lemma_abs_mul_le(n as int, v as int, 4096, 68719476736);
            }
            Ratio { num: s * v + c * t, den: (n as i128) * v }
        };
        out
    }
}

impl Reset for LinearRegressionPrediction {
    open spec fn reset_req(&self) -> bool {
        self.wf()
    }

    open spec fn reset_post(&self, post: Self) -> bool {
        post.wf() && post@ == reset_lrp_view(self@)
    }

    /// Clears the sample window only; the precomputed regressor positions
    /// and mean depend only on the period and are retained.
    fn reset(&mut self) {
        self.deque.clear();
    }
}

} // verus!
