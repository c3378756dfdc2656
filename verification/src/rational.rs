//! Positive rational numbers, the shape in which stream metadata
//! providers report time bases and frame rates.

use vstd::prelude::*;

verus! {

/// A rational number `num / den`. A stream's time base expresses how many
/// seconds one decoder tick lasts; a frame rate expresses frames per second.
#[derive(Clone, Copy, Debug, PartialEq, Eq, Structural)]
pub struct Rational {
    pub num: i64,
    pub den: i64,
}

impl Rational {
    /// Well-formed: strictly positive and small enough (both parts fit in
    /// 31 bits, as the metadata provider's native rationals do) that every
    /// tick and frame computation in this crate fits 128-bit intermediates.
    pub open spec fn wf(self) -> bool {
        0 < self.num <= 0x7fff_ffff && 0 < self.den <= 0x7fff_ffff
    }

    /// Tests well-formedness.
    pub fn is_wf(&self) -> (r: bool)
        ensures
            r == self.wf(),
    {
        0 < self.num && self.num <= 0x7fff_ffff && 0 < self.den && self.den <= 0x7fff_ffff
    }

    /// Builds a well-formed rational, rejecting anything non-positive or
    /// too large.
    pub fn new(num: i64, den: i64) -> (r: Option<Rational>)
        ensures
            match r {
                Some(q) => q.num == num && q.den == den && q.wf(),
                None => !(Rational { num, den }).wf(),
            },
    {
        if 0 < num && num <= 0x7fff_ffff && 0 < den && den <= 0x7fff_ffff {
            Some(Rational { num, den })
        } else {
            None
        }
    }
}

} // verus!
