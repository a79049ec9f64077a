//! The sphere, and where a ray meets it.
//!
//! A point `origin + t * direction` lies on the sphere where
//! `|origin + t * direction - center|^2 = radius^2`. With
//! `h = direction . (center - origin)` this is a quadratic in `t` whose roots
//! are `(h -+ sqrt(h^2 - a * c)) / a`.
use crate::modules::arithmetic::{
    is_difference, is_product, is_quotient, is_square_root, is_sum, Arithmetic,
};
use crate::modules::hittable::{against, meets_front, share, HitRecord};
use crate::modules::interval::Interval;
use crate::modules::material::Material;
use crate::modules::ray::{is_point_at, Ray};
use crate::modules::scalar::Scalar;
use crate::modules::vec3::{is_divided, is_dot, is_minus, Point3, Vec3};
use std::sync::Arc;
use vstd::prelude::*;

verus! {

/// A sphere. The radius is a number and not below zero.
#[derive(Debug)]
pub struct Sphere {
    center: Point3,
    radius: Scalar,
    mat: Arc<Material>,
}

/// The coefficients of the quadratic for a ray and a sphere, in reduced
/// form, and its discriminant `h^2 - a * c`.
#[derive(Clone, Copy, Debug, PartialEq, Eq, Structural)]
pub struct Quadratic {
    pub a: Scalar,
    pub h: Scalar,
    pub c: Scalar,
    pub discriminant: Scalar,
}

/// `c` is the constant term for the offset `oc` from ray origin to centre:
/// `oc . oc - radius^2`.
pub open spec fn is_constant_term<A: Arithmetic>(
    ar: &A,
    oc: Vec3,
    radius: Scalar,
    c: Scalar,
) -> bool {
    exists|squared: Scalar, r2: Scalar|
        is_dot(ar, oc, oc, squared) && is_product(ar, radius, radius, r2) && is_difference(
            ar,
            squared,
            r2,
            c,
        )
}

/// `d` is the discriminant `h * h - a * c`.
pub open spec fn is_discriminant<A: Arithmetic>(
    ar: &A,
    a: Scalar,
    h: Scalar,
    c: Scalar,
    d: Scalar,
) -> bool {
    exists|hh: Scalar, ac: Scalar|
        is_product(ar, h, h, hh) && is_product(ar, a, c, ac) && is_difference(ar, hh, ac, d)
}

/// `q` is the quadratic for this sphere and ray.
pub open spec fn is_quadratic<A: Arithmetic>(
    ar: &A,
    center: Point3,
    radius: Scalar,
    ray: Ray,
    q: Quadratic,
) -> bool {
    exists|oc: Vec3|
        #[trigger] is_minus(ar, center, ray.origin, oc) && is_dot(
            ar,
            ray.direction,
            ray.direction,
            q.a,
        ) && is_dot(ar, ray.direction, oc, q.h) && is_constant_term(ar, oc, radius, q.c)
            && is_discriminant(ar, q.a, q.h, q.c, q.discriminant)
}

/// `root` is the smaller root `(h - sd) / a`, for `sd` the square root of the
/// discriminant.
pub open spec fn is_near_root<A: Arithmetic>(ar: &A, q: Quadratic, sd: Scalar, root: Scalar) -> bool {
    exists|n: Scalar| is_difference(ar, q.h, sd, n) && is_quotient(ar, n, q.a, root)
}

/// `root` is the larger root `(h + sd) / a`.
pub open spec fn is_far_root<A: Arithmetic>(ar: &A, q: Quadratic, sd: Scalar, root: Scalar) -> bool {
    exists|n: Scalar| is_sum(ar, q.h, sd, n) && is_quotient(ar, n, q.a, root)
}

/// `res` is the root at which the ray counts as hitting: none where the
/// discriminant is below zero; else the smaller root where the open range
/// holds it; else the larger root where the open range holds that; else none.
pub open spec fn is_accepted_root<A: Arithmetic>(
    ar: &A,
    q: Quadratic,
    ray_t: Interval,
    res: Option<Scalar>,
) -> bool {
    if q.discriminant.below(Scalar { bits: 0 }) {
        res is None
    } else {
        exists|sd: Scalar, near: Scalar|
            is_square_root(ar, q.discriminant, sd) && #[trigger] is_near_root(ar, q, sd, near)
                && if ray_t.surrounding(near) {
                res == Some(near)
            } else {
                exists|far: Scalar|
                    #[trigger] is_far_root(ar, q, sd, far) && res == if ray_t.surrounding(far) {
                        Some(far)
                    } else {
                        None
                    }
            }
    }
}

/// `n` is the outward normal at the point `p` of the sphere:
/// `(p - center) / radius`.
pub open spec fn is_outward_normal<A: Arithmetic>(
    ar: &A,
    center: Point3,
    radius: Scalar,
    p: Point3,
    n: Vec3,
) -> bool {
    exists|d: Vec3| #[trigger] is_minus(ar, p, center, d) && is_divided(ar, d, radius, n)
}

/// `rec` records the hit of `ray` at parameter `t` on the sphere: the point
/// of the ray at `t`, the outward normal there turned against the ray, the
/// side from which the ray came, and the sphere's material.
pub open spec fn is_sphere_record<A: Arithmetic>(
    ar: &A,
    center: Point3,
    radius: Scalar,
    material: Material,
    ray: Ray,
    t: Scalar,
    rec: HitRecord,
) -> bool {
    &&& rec.t == t
    &&& is_point_at(ar, ray, t, rec.p)
    &&& *rec.mat == material
    &&& exists|outward: Vec3, cosine: Scalar|
        #[trigger] is_outward_normal(ar, center, radius, rec.p, outward) && #[trigger] is_dot(
            ar,
            ray.direction,
            outward,
            cosine,
        ) && rec.front_face == meets_front(cosine) && rec.normal == against(
            rec.front_face,
            outward,
        )
}

/// `res` is where the ray meets the sphere inside the open range: at the
/// accepted root of their quadratic, with the record of that point, or
/// nowhere.
pub open spec fn is_sphere_hit<A: Arithmetic>(
    ar: &A,
    sphere: Sphere,
    r: Ray,
    ray_t: Interval,
    res: Option<HitRecord>,
) -> bool {
    exists|q: Quadratic, root: Option<Scalar>|
        #[trigger] is_quadratic(ar, sphere.center(), sphere.radius(), r, q)
            && #[trigger] is_accepted_root(ar, q, ray_t, root) && match root {
            Some(t) => ray_t.surrounding(t) && (res matches Some(rec) && is_sphere_record(
                ar,
                sphere.center(),
                sphere.radius(),
                sphere.material(),
                r,
                t,
                rec,
            )),
            None => res is None,
        }
}

impl Sphere {
    pub closed spec fn center(self) -> Point3 {
        self.center
    }

    pub closed spec fn radius(self) -> Scalar {
        self.radius
    }

    pub closed spec fn material(self) -> Material {
        *self.mat
    }

    /// A sphere of this material. A radius below zero, or a NaN, is taken
    /// as zero.
    pub fn new(center: Point3, radius: Scalar, mat: Arc<Material>) -> (r: Sphere)
        ensures
            r.center() == center,
            r.radius() == radius.greater(Scalar { bits: 0 }),
            r.material() == *mat,
            !r.radius().nan(),
            r.radius().scaled() >= 0,
    {
        Sphere { center, radius: radius.max(Scalar::zero()), mat }
    }

    /// The quadratic whose roots are the parameters at which the ray meets
    /// the sphere.
    pub fn quadratic<A: Arithmetic>(&self, ar: &A, r: &Ray) -> (q: Quadratic)
        ensures
            is_quadratic(ar, self.center(), self.radius(), *r, q),
    {
        let oc = self.center.sub(ar, r.origin());
        let a = r.direction().length_squared(ar);
        let h = r.direction().dot(ar, &oc);
        let squared = oc.length_squared(ar);
        let r2 = ar.product(self.radius, self.radius);
        let c = ar.difference(squared, r2);
        assert(is_constant_term(ar, oc, self.radius, c));
        let hh = ar.product(h, h);
        let ac = ar.product(a, c);
        let discriminant = ar.difference(hh, ac);
        assert(is_discriminant(ar, a, h, c, discriminant));
        Quadratic { a, h, c, discriminant }
    }

    /// The nearest root of the quadratic that lies inside the open range.
    pub fn accepted_root<A: Arithmetic>(ar: &A, q: &Quadratic, ray_t: Interval) -> (res: Option<
        Scalar,
    >)
        ensures
            is_accepted_root(ar, *q, ray_t, res),
            res matches Some(t) ==> ray_t.surrounding(t),
    {
        if q.discriminant.lt(Scalar::zero()) {
            return None;
        }
        let sd = ar.square_root(q.discriminant);
        let n = ar.difference(q.h, sd);
        let near = ar.quotient(n, q.a);
        assert(is_near_root(ar, *q, sd, near));
        if ray_t.surrounds(near) {
            return Some(near);
        }
        let m = ar.sum(q.h, sd);
        let far = ar.quotient(m, q.a);
        assert(is_far_root(ar, *q, sd, far));
        if ray_t.surrounds(far) {
            Some(far)
        } else {
            None
        }
    }

    /// The record of the hit at parameter `t`.
    pub fn record_at<A: Arithmetic>(&self, ar: &A, r: &Ray, t: Scalar) -> (rec: HitRecord)
        ensures
            is_sphere_record(ar, self.center(), self.radius(), self.material(), *r, t, rec),
    {
        let p = r.at(ar, t);
        let d = p.sub(ar, self.center);
        let outward_normal = d.div(ar, self.radius);
        assert(is_outward_normal(ar, self.center, self.radius, p, outward_normal));
        let cosine = r.direction().dot(ar, &outward_normal);
        let (front_face, normal) = HitRecord::orient(cosine, outward_normal);
        HitRecord { p, normal, mat: share(&self.mat), t, front_face }
    }

    /// Where the ray meets the sphere, inside the open range `ray_t`: at the
    /// smaller root of the quadratic if the range holds it, else at the
    /// larger root if the range holds that, else nowhere.
    pub fn hit<A: Arithmetic>(&self, ar: &A, r: &Ray, ray_t: Interval) -> (res: Option<HitRecord>)
        ensures
            is_sphere_hit(ar, *self, *r, ray_t, res),
            res matches Some(rec) ==> ray_t.surrounding(rec.t),
    {
        let q = self.quadratic(ar, r);
        match Sphere::accepted_root(ar, &q, ray_t) {
            Some(t) => Some(self.record_at(ar, r, t)),
            None => None,
        }
    }
}

} // verus!
