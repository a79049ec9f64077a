//! Constants and the scalar helpers shared by the other modules.
use crate::modules::arithmetic::{is_difference, is_product, is_quotient, is_sum, Arithmetic};
use crate::modules::conversion::{is_unit_fraction, lemma_unit_fraction_range};
use crate::modules::sampler::{is_draw, next_bits, Sampler};
use crate::modules::scalar::{Scalar, INFINITY_BITS, ONE_BITS};
use vstd::prelude::*;

verus! {

/// The pattern of positive infinity.
pub const INFINITY: u64 = INFINITY_BITS;

/// The pattern of the binary64 nearest to pi.
pub const PI: u64 = 0x4009_21FB_5444_2D18;

/// The pattern of 180.0.
pub const HALF_TURN_DEGREES: u64 = 0x4066_8000_0000_0000;

/// The pattern of the binary64 nearest to pi / 180.
pub const RADIANS_PER_DEGREE: u64 = 0x3F91_DF46_A252_9D39;

/// `r` is the number in `[0, 1)` that one draw from `before` stands for, and
/// `after` is the source that the draw leaves.
pub open spec fn is_unit_draw<S: Sampler>(before: S, after: S, r: Scalar) -> bool {
    exists|bits: u64| is_draw(before, bits, after) && #[trigger] is_unit_fraction(bits, r)
}

/// `r` is `degrees * pi / 180` as `ar` computes it, the product first.
pub open spec fn is_radians<A: Arithmetic>(ar: &A, degrees: Scalar, r: Scalar) -> bool {
    exists|p: Scalar|
        is_product(ar, degrees, Scalar { bits: PI }, p) && is_quotient(
            ar,
            p,
            Scalar { bits: HALF_TURN_DEGREES },
            r,
        )
}

/// `r` is `degrees * (pi / 180)` as `ar` computes it: one product with the
/// rounded constant.
pub open spec fn is_to_radians<A: Arithmetic>(ar: &A, degrees: Scalar, r: Scalar) -> bool {
    is_product(ar, degrees, Scalar { bits: RADIANS_PER_DEGREE }, r)
}

/// `r` is `min + (max - min) * u` as `ar` computes it.
pub open spec fn is_between<A: Arithmetic>(
    ar: &A,
    min: Scalar,
    max: Scalar,
    u: Scalar,
    r: Scalar,
) -> bool {
    exists|d: Scalar, p: Scalar|
        is_difference(ar, max, min, d) && is_product(ar, d, u, p) && is_sum(ar, min, p, r)
}

/// `r` is a random number of `[min, max)`: `min + (max - min) * u` for the
/// number `u` of one draw from `before`, which leaves `after`.
pub open spec fn is_ranged_draw<A: Arithmetic, S: Sampler>(
    ar: &A,
    min: Scalar,
    max: Scalar,
    before: S,
    after: S,
    r: Scalar,
) -> bool {
    exists|u: Scalar| #[trigger] is_unit_draw(before, after, u) && is_between(ar, min, max, u, r)
}

/// An angle in degrees, in radians, by the product with pi and the quotient
/// by 180.
pub fn degrees_to_radians<A: Arithmetic>(ar: &A, degrees: Scalar) -> (r: Scalar)
    ensures
        is_radians(ar, degrees, r),
{
    let p = ar.product(degrees, Scalar::from_bits(PI));
    ar.quotient(p, Scalar::from_bits(HALF_TURN_DEGREES))
}

/// An angle in degrees, in radians, by one product with pi / 180.
pub fn to_radians<A: Arithmetic>(ar: &A, degrees: Scalar) -> (r: Scalar)
    ensures
        is_to_radians(ar, degrees, r),
{
    ar.product(degrees, Scalar::from_bits(RADIANS_PER_DEGREE))
}

/// A random number in `[0, 1)`: the high 53 bits of one draw, over 2^53.
pub fn random_double<S: Sampler>(s: &mut S) -> (r: Scalar)
    ensures
        is_unit_draw(*old(s), *final(s), r),
        (Scalar { bits: 0 }).at_most(r),
        r.below(Scalar { bits: ONE_BITS }),
{
    let bits = next_bits(s);
    let r = Scalar::unit_fraction(bits);
    proof {
        lemma_unit_fraction_range(bits, r);
    }
    r
}

/// A random number in `[min, max)`: the range scaled by the number of one
/// draw and added to `min`.
pub fn random_double_range<A: Arithmetic, S: Sampler>(
    ar: &A,
    s: &mut S,
    min: Scalar,
    max: Scalar,
) -> (r: Scalar)
    ensures
        is_ranged_draw(ar, min, max, *old(s), *final(s), r),
{
    let d = ar.difference(max, min);
    let u = random_double(s);
    let p = ar.product(d, u);
    let r = ar.sum(min, p);
    assert(is_between(ar, min, max, u, r));
    r
}

} // verus!
