use vstd::prelude::*;

verus! {

/// An exact physical value: `numerator / denominator` of its unit.
///
/// Register decoding yields rationals (energy is a count times a power of
/// one half, frequency a ratio of two register fields), so they are kept
/// exact here and turned into floating point only where they are printed.
#[derive(Clone, Copy, Debug, PartialEq, Eq, Structural)]
pub struct Quantity {
    pub numerator: i128,
    pub denominator: u128,
}

impl Quantity {
    /// A quantity is meaningful only with a positive denominator.
    pub open spec fn wf(self) -> bool {
        self.denominator > 0
    }

    /// The numerator as a mathematical integer.
    pub open spec fn num(self) -> int {
        self.numerator as int
    }

    /// The denominator as a mathematical integer.
    pub open spec fn den(self) -> int {
        self.denominator as int
    }

    /// A whole number of units.
    pub fn whole(n: i128) -> (r: Quantity)
        ensures
            r.wf(),
            r.numerator == n,
            r.denominator == 1,
    {
        Quantity { numerator: n, denominator: 1 }
    }
}

} // verus!
