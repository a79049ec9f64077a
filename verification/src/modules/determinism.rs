//! What is determined once the arithmetic and the source of random bits are
//! functions.
//!
//! An implementation of [`Arithmetic`] may answer the same question twice
//! in two ways, and a [`Sampler`] may hand out different bits when asked
//! again, for all that their contracts say. Where they do not, everything
//! the library computes has one result: a configuration, a world and a
//! source of random bits give one image.
use crate::modules::arithmetic::{
    is_difference, is_product, is_quotient, is_square_root, is_sum, is_tangent, Arithmetic,
};
use crate::modules::sampler::{is_draw, Sampler};
use crate::modules::scalar::Scalar;
use vstd::prelude::*;

pub mod draws;
pub mod frame;
pub mod hits;
pub mod image;

verus! {

/// The arithmetic is a function: each operation has one result for given
/// operands.
pub open spec fn is_function<A: Arithmetic>(ar: &A) -> bool {
    &&& forall|a: Scalar, b: Scalar, r: Scalar, q: Scalar|
        is_sum(ar, a, b, r) && is_sum(ar, a, b, q) ==> r == q
    &&& forall|a: Scalar, b: Scalar, r: Scalar, q: Scalar|
        is_difference(ar, a, b, r) && is_difference(ar, a, b, q) ==> r == q
    &&& forall|a: Scalar, b: Scalar, r: Scalar, q: Scalar|
        is_product(ar, a, b, r) && is_product(ar, a, b, q) ==> r == q
    &&& forall|a: Scalar, b: Scalar, r: Scalar, q: Scalar|
        is_quotient(ar, a, b, r) && is_quotient(ar, a, b, q) ==> r == q
    &&& forall|a: Scalar, r: Scalar, q: Scalar|
        is_square_root(ar, a, r) && is_square_root(ar, a, q) ==> r == q
    &&& forall|a: Scalar, r: Scalar, q: Scalar|
        is_tangent(ar, a, r) && is_tangent(ar, a, q) ==> r == q
}

/// The source is a function: asked again, it hands out the same bits and
/// leaves the same source.
pub open spec fn is_repeatable<S: Sampler>() -> bool {
    forall|s: S, bits: u64, next: S, bits2: u64, next2: S|
        is_draw(s, bits, next) && is_draw(s, bits2, next2) ==> bits == bits2 && next == next2
}

} // verus!
