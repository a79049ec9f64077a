//! The rounding operations that the library asks of its caller.
use crate::modules::scalar::Scalar;
use vstd::prelude::*;

verus! {

/// Rounding arithmetic on binary64 values.
///
/// The library decides nothing about rounding: whoever calls it supplies the
/// six operations, typically the machine's own. Nothing is assumed of what an
/// implementation returns. A contract that rests on arithmetic names the
/// operation and the operands that were handed over, through the relations
/// below.
pub trait Arithmetic {
    /// `a + b`.
    fn sum(&self, a: Scalar, b: Scalar) -> Scalar;

    /// `a - b`.
    fn difference(&self, a: Scalar, b: Scalar) -> Scalar;

    /// `a * b`.
    fn product(&self, a: Scalar, b: Scalar) -> Scalar;

    /// `a / b`.
    fn quotient(&self, a: Scalar, b: Scalar) -> Scalar;

    /// The square root of `a`.
    fn square_root(&self, a: Scalar) -> Scalar;

    /// The tangent of `a`, an angle in radians.
    fn tangent(&self, a: Scalar) -> Scalar;
}

/// `r` is what `ar` may return for `a + b`.
#[verifier::inline]
pub open spec fn is_sum<A: Arithmetic>(ar: &A, a: Scalar, b: Scalar, r: Scalar) -> bool {
    call_ensures(A::sum, (ar, a, b), r)
}

/// `r` is what `ar` may return for `a - b`.
#[verifier::inline]
pub open spec fn is_difference<A: Arithmetic>(ar: &A, a: Scalar, b: Scalar, r: Scalar) -> bool {
    call_ensures(A::difference, (ar, a, b), r)
}

/// `r` is what `ar` may return for `a * b`.
#[verifier::inline]
pub open spec fn is_product<A: Arithmetic>(ar: &A, a: Scalar, b: Scalar, r: Scalar) -> bool {
    call_ensures(A::product, (ar, a, b), r)
}

/// `r` is what `ar` may return for `a / b`.
#[verifier::inline]
pub open spec fn is_quotient<A: Arithmetic>(ar: &A, a: Scalar, b: Scalar, r: Scalar) -> bool {
    call_ensures(A::quotient, (ar, a, b), r)
}

/// `r` is what `ar` may return for the square root of `a`.
#[verifier::inline]
pub open spec fn is_square_root<A: Arithmetic>(ar: &A, a: Scalar, r: Scalar) -> bool {
    call_ensures(A::square_root, (ar, a), r)
}

/// `r` is what `ar` may return for the tangent of `a`.
#[verifier::inline]
pub open spec fn is_tangent<A: Arithmetic>(ar: &A, a: Scalar, r: Scalar) -> bool {
    call_ensures(A::tangent, (ar, a), r)
}

} // verus!
