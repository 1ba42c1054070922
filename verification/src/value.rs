//! Values between zero and one, held exactly.

use vstd::prelude::*;

verus! {

/// A fraction of two integers. It carries the values that must reach the
/// caller's arithmetic without rounding: a normalised escape value, the
/// centre of a colour bump, the place of a pixel along an axis.
#[derive(Clone, Copy, Debug, PartialEq, Eq, Structural)]
pub struct NormalizedValue {
    pub numerator: u32,
    pub denominator: u32,
}

impl NormalizedValue {
    /// The fraction is defined and lies between zero and one, both included.
    pub open spec fn in_unit_interval(self) -> bool {
        0 < self.denominator && self.numerator <= self.denominator
    }
}

} // verus!
