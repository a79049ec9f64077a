//! Rays: `P(t) = origin + t * direction`.
use crate::modules::arithmetic::Arithmetic;
use crate::modules::scalar::Scalar;
use crate::modules::vec3::{is_plus, is_scaled, Vec3};
use vstd::prelude::*;

verus! {

/// A ray. The direction is not kept at length one; callers that need a unit
/// direction normalise it.
#[derive(Clone, Copy, Debug, PartialEq, Eq, Structural)]
pub struct Ray {
    pub origin: Vec3,
    pub direction: Vec3,
}

/// `p` is the point of `ray` at parameter `t`: `origin + t * direction`.
pub open spec fn is_point_at<A: Arithmetic>(ar: &A, ray: Ray, t: Scalar, p: Vec3) -> bool {
    exists|w: Vec3| #[trigger] is_scaled(ar, t, ray.direction, w) && is_plus(ar, ray.origin, w, p)
}

impl Ray {
    pub fn new(origin: Vec3, direction: Vec3) -> (r: Ray)
        ensures
            r.origin == origin && r.direction == direction,
    {
        Ray { origin, direction }
    }

    pub fn origin(&self) -> (r: Vec3)
        ensures
            r == self.origin,
    {
        self.origin
    }

    pub fn direction(&self) -> (r: Vec3)
        ensures
            r == self.direction,
    {
        self.direction
    }

    /// The point at parameter `t` along the ray.
    pub fn at<A: Arithmetic>(&self, ar: &A, t: Scalar) -> (r: Vec3)
        ensures
            is_point_at(ar, *self, t, r),
    {
        let w = self.direction.scale(ar, t);
        self.origin.add(ar, w)
    }
}

impl Default for Ray {
    /// The ray from the origin with the zero direction.
    fn default() -> (r: Ray)
        ensures
            r.origin == Vec3::zero_vector() && r.direction == Vec3::zero_vector(),
    {
        Ray { origin: Vec3::zero(), direction: Vec3::zero() }
    }
}

} // verus!
