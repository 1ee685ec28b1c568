//! Exact quotients of integers.
//!
//! Percentages and fractions are kept as a numerator and a denominator,
//! never rounded: whoever displays one divides at the last moment.

use vstd::prelude::*;

verus! {

/// The quotient `num / den`, unreduced.
#[derive(Clone, Copy, Debug)]
pub struct Ratio {
    pub num: i128,
    pub den: i128,
}

impl Ratio {
    /// A ratio has a value if its denominator is not zero.
    pub open spec fn wf(self) -> bool {
        self.den != 0
    }

    /// Whether the value is that of `n / d`.
    pub open spec fn is_quotient(self, n: int, d: int) -> bool {
        self.num * d == n * self.den
    }

    /// Zero, as `0 / 1`.
    pub open spec fn zero_spec() -> Ratio {
        Ratio { num: 0, den: 1 }
    }

    /// Zero, as `0 / 1`.
    #[verifier::when_used_as_spec(zero_spec)]
    pub fn zero() -> (r: Ratio)
        ensures
            r == Ratio::zero_spec(),
    {
        Ratio { num: 0, den: 1 }
    }
}

} // verus!
