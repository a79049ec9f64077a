//! Ranges of numbers: the parameters at which a hit counts.
use crate::modules::arithmetic::{is_difference, Arithmetic};
use crate::modules::scalar::{lemma_weight_increases, Scalar, INFINITY_BITS, SIGN_BIT};
use vstd::prelude::*;

verus! {

#[derive(Clone, Copy, Debug, PartialEq, Eq, Structural)]
pub struct Interval {
    pub min: Scalar,
    pub max: Scalar,
}

impl Interval {
    /// `x` lies in the closed range: `min <= x <= max`.
    pub open spec fn containing(self, x: Scalar) -> bool {
        self.min.at_most(x) && x.at_most(self.max)
    }

    /// `x` lies in the open range: `min < x < max`.
    pub open spec fn surrounding(self, x: Scalar) -> bool {
        self.min.below(x) && x.below(self.max)
    }

    pub fn new(min: Scalar, max: Scalar) -> (r: Interval)
        ensures
            r.min == min && r.max == max,
    {
        Interval { min, max }
    }

    /// The range from plus infinity down to minus infinity, which holds
    /// nothing.
    pub fn empty() -> (r: Interval)
        ensures
            r.min.bits == INFINITY_BITS && r.max.bits == INFINITY_BITS + SIGN_BIT,
    {
        Interval { min: Scalar::infinity(), max: Scalar::neg_infinity() }
    }

    /// The range from minus infinity to plus infinity, which holds every
    /// number.
    pub fn universe() -> (r: Interval)
        ensures
            r.min.bits == INFINITY_BITS + SIGN_BIT && r.max.bits == INFINITY_BITS,
    {
        Interval { min: Scalar::neg_infinity(), max: Scalar::infinity() }
    }

    /// `max - min`.
    pub fn size<A: Arithmetic>(&self, ar: &A) -> (r: Scalar)
        ensures
            is_difference(ar, self.max, self.min, r),
    {
        ar.difference(self.max, self.min)
    }

    pub fn contains(&self, x: Scalar) -> (r: bool)
        ensures
            r == self.containing(x),
    {
        self.min.le(x) && x.le(self.max)
    }

    pub fn surrounds(&self, x: Scalar) -> (r: bool)
        ensures
            r == self.surrounding(x),
    {
        self.min.lt(x) && x.lt(self.max)
    }
}

impl Default for Interval {
    /// The empty range.
    fn default() -> (r: Interval)
        ensures
            r.min.bits == INFINITY_BITS && r.max.bits == INFINITY_BITS + SIGN_BIT,
    {
        Interval::empty()
    }
}

/// An open range holds neither of its bounds, and whatever it holds the
/// closed range holds too.
pub proof fn lemma_surrounding_is_strict(i: Interval, x: Scalar)
    ensures
        !i.surrounding(i.min),
        !i.surrounding(i.max),
        i.surrounding(x) ==> i.containing(x),
        i.surrounding(x) ==> x.scaled() != i.min.scaled() && x.scaled() != i.max.scaled(),
{
}

/// The empty range holds no value, not even under the closed comparison.
pub proof fn lemma_empty_holds_nothing(x: Scalar)
    ensures
        !(Interval {
            min: Scalar { bits: INFINITY_BITS },
            max: Scalar { bits: (INFINITY_BITS + SIGN_BIT) as u64 },
        }).containing(x),
{
    let top = Scalar { bits: INFINITY_BITS };
    let bottom = Scalar { bits: (INFINITY_BITS + SIGN_BIT) as u64 };
    lemma_weight_increases(0, INFINITY_BITS as int);
    assert(bottom.scaled() < 0 < top.scaled());
}

/// The universe holds every value that is a number.
pub proof fn lemma_universe_holds_numbers(x: Scalar)
    ensures
        (Interval {
            min: Scalar { bits: (INFINITY_BITS + SIGN_BIT) as u64 },
            max: Scalar { bits: INFINITY_BITS },
        }).containing(x) == !x.nan(),
{
    let top = Scalar { bits: INFINITY_BITS };
    let bottom = Scalar { bits: (INFINITY_BITS + SIGN_BIT) as u64 };
    if !x.nan() {
        if x.magnitude() < INFINITY_BITS {
            lemma_weight_increases(x.magnitude(), INFINITY_BITS as int);
        }
        if 0 < x.magnitude() {
            lemma_weight_increases(0, x.magnitude());
        }
        lemma_weight_increases(0, INFINITY_BITS as int);
    }
}

} // verus!
