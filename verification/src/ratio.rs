//! Exact rational results.
//!
//! The regression forecaster's one-step-ahead prediction is a ratio of two
//! exact integer moments; it is returned as that ratio, unreduced, instead
//! of being rounded.

use vstd::prelude::*;
use crate::arith::lemma_abs_mul_le;

verus! {

/// The largest numerator magnitude a forecast can produce within the
/// forecaster's declared period and sample bounds.
pub const NUM_MAX: i128 = 4835703278458516698824704;

/// The largest denominator a forecast can produce within the forecaster's
/// declared period and sample bounds.
pub const DEN_MAX: i128 = 281474976710656;

/// An exact, possibly unreduced, rational number with positive denominator.
#[derive(Debug, Clone, Copy, PartialEq, Eq, Structural)]
pub struct Ratio {
    pub num: i128,
    pub den: i128,
}

impl Ratio {
    /// The rational value `num / den` equals the integer `k`.
    pub open spec fn spec_eq_int(&self, k: i64) -> bool {
        self.num == k * self.den
    }

    /// Whether this ratio is exactly the integer `k`.
    pub fn eq_int(&self, k: i64) -> (r: bool)
        requires
            1 <= self.den <= DEN_MAX,
            -NUM_MAX <= self.num <= NUM_MAX,
        ensures
            r == self.spec_eq_int(k),
    {
        proof {
            lemma_abs_mul_le(k as int, self.den as int, 9223372036854775808, DEN_MAX as int);
        }
        self.num == (k as i128) * self.den
    }
}

} // verus!
