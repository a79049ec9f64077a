//! One ray, one hit; one direction, one sky; one colour, one way to write it.
use crate::modules::arithmetic::Arithmetic;
use crate::modules::camera::{is_sky, is_written};
use crate::modules::color::{Color, Rgb};
use crate::modules::determinism::is_function;
use crate::modules::hittable::{best_before, is_hit, is_nearest, is_scan, narrowed, HitRecord, Hittable};
use crate::modules::interval::Interval;
use crate::modules::ray::Ray;
use crate::modules::hittable::{against, meets_front};
use crate::modules::hittable_list::lemma_things_are_parts;
use crate::modules::material::Material;
use crate::modules::scalar::Scalar;
use crate::modules::sphere::{
    is_accepted_root, is_constant_term, is_discriminant, is_outward_normal, is_quadratic,
    is_sphere_hit, is_sphere_record, Quadratic, Sphere,
};
use crate::modules::vec3::{is_dot, is_minus, Point3};
use crate::modules::vec3::Vec3;
use std::sync::Arc;
use vstd::prelude::*;

verus! {

/// A sphere and a ray have one quadratic.
pub proof fn lemma_quadratic_is_determined<A: Arithmetic>(
    ar: &A,
    center: Point3,
    radius: Scalar,
    ray: Ray,
    a: Quadratic,
    b: Quadratic,
)
    requires
        is_function(ar),
        is_quadratic(ar, center, radius, ray, a),
        is_quadratic(ar, center, radius, ray, b),
    ensures
        a == b,
{
    let oc = choose|oc: Vec3|
        #[trigger] is_minus(ar, center, ray.origin, oc) && is_dot(
            ar,
            ray.direction,
            ray.direction,
            a.a,
        ) && is_dot(ar, ray.direction, oc, a.h) && is_constant_term(ar, oc, radius, a.c)
            && is_discriminant(ar, a.a, a.h, a.c, a.discriminant);
    let oc2 = choose|oc: Vec3|
        #[trigger] is_minus(ar, center, ray.origin, oc) && is_dot(
            ar,
            ray.direction,
            ray.direction,
            b.a,
        ) && is_dot(ar, ray.direction, oc, b.h) && is_constant_term(ar, oc, radius, b.c)
            && is_discriminant(ar, b.a, b.h, b.c, b.discriminant);
    assert(oc == oc2);
    assert(a.a == b.a);
    assert(a.h == b.h);
    assert(a.c == b.c);
    assert(a.discriminant == b.discriminant);
}

/// A quadratic and a range have one accepted root.
pub proof fn lemma_accepted_root_is_determined<A: Arithmetic>(
    ar: &A,
    q: Quadratic,
    ray_t: Interval,
    a: Option<Scalar>,
    b: Option<Scalar>,
)
    requires
        is_function(ar),
        is_accepted_root(ar, q, ray_t, a),
        is_accepted_root(ar, q, ray_t, b),
    ensures
        a == b,
{
}

/// A hit at a parameter has one record.
pub proof fn lemma_sphere_record_is_determined<A: Arithmetic>(
    ar: &A,
    center: Point3,
    radius: Scalar,
    material: Material,
    ray: Ray,
    t: Scalar,
    a: HitRecord,
    b: HitRecord,
)
    requires
        is_function(ar),
        is_sphere_record(ar, center, radius, material, ray, t, a),
        is_sphere_record(ar, center, radius, material, ray, t, b),
    ensures
        a == b,
{
    assert(a.p == b.p);
    let (outward, cosine) = choose|outward: Vec3, cosine: Scalar|
        #[trigger] is_outward_normal(ar, center, radius, a.p, outward) && #[trigger] is_dot(
            ar,
            ray.direction,
            outward,
            cosine,
        ) && a.front_face == meets_front(cosine) && a.normal == against(a.front_face, outward);
    let (outward2, cosine2) = choose|outward: Vec3, cosine: Scalar|
        #[trigger] is_outward_normal(ar, center, radius, b.p, outward) && #[trigger] is_dot(
            ar,
            ray.direction,
            outward,
            cosine,
        ) && b.front_face == meets_front(cosine) && b.normal == against(b.front_face, outward);
    assert(outward == outward2);
    assert(cosine == cosine2);
}

/// A ray and a range have one outcome on a sphere.
pub proof fn lemma_sphere_hit_is_determined<A: Arithmetic>(
    ar: &A,
    sphere: Sphere,
    r: Ray,
    ray_t: Interval,
    a: Option<HitRecord>,
    b: Option<HitRecord>,
)
    requires
        is_function(ar),
        is_sphere_hit(ar, sphere, r, ray_t, a),
        is_sphere_hit(ar, sphere, r, ray_t, b),
    ensures
        a == b,
{
    let (q, root) = choose|q: Quadratic, root: Option<Scalar>|
        #[trigger] is_quadratic(ar, sphere.center(), sphere.radius(), r, q)
            && #[trigger] is_accepted_root(ar, q, ray_t, root) && match root {
            Some(t) => ray_t.surrounding(t) && (a matches Some(rec) && is_sphere_record(
                ar,
                sphere.center(),
                sphere.radius(),
                sphere.material(),
                r,
                t,
                rec,
            )),
            None => a is None,
        };
    let (q2, root2) = choose|q: Quadratic, root: Option<Scalar>|
        #[trigger] is_quadratic(ar, sphere.center(), sphere.radius(), r, q)
            && #[trigger] is_accepted_root(ar, q, ray_t, root) && match root {
            Some(t) => ray_t.surrounding(t) && (b matches Some(rec) && is_sphere_record(
                ar,
                sphere.center(),
                sphere.radius(),
                sphere.material(),
                r,
                t,
                rec,
            )),
            None => b is None,
        };
    lemma_quadratic_is_determined(ar, sphere.center(), sphere.radius(), r, q, q2);
    lemma_accepted_root_is_determined(ar, q, ray_t, root, root2);
    if root is Some {
        lemma_sphere_record_is_determined(
            ar,
            sphere.center(),
            sphere.radius(),
            sphere.material(),
            r,
            root->0,
            a->0,
            b->0,
        );
    }
}

/// A ray and a range have one outcome on a thing.
pub proof fn lemma_hit_is_determined<A: Arithmetic>(
    ar: &A,
    object: &Hittable,
    r: Ray,
    ray_t: Interval,
    a: Option<HitRecord>,
    b: Option<HitRecord>,
)
    requires
        is_function(ar),
        is_hit(ar, *object, r, ray_t, a),
        is_hit(ar, *object, r, ray_t, b),
    ensures
        a == b,
    decreases *object, 0int,
{
    match object {
        Hittable::Sphere(sphere) => {
            lemma_sphere_hit_is_determined(ar, *sphere, r, ray_t, a, b);
        },
        Hittable::List(list) => {
            lemma_things_are_parts(list);
            let n = list@.len() as int;
            let first = choose|o: Seq<Option<HitRecord>>|
                is_scan(ar, list@, r, ray_t, o) && a == #[trigger] best_before(o, n);
            let second = choose|o: Seq<Option<HitRecord>>|
                is_scan(ar, list@, r, ray_t, o) && b == #[trigger] best_before(o, n);
            lemma_scan_is_determined(ar, list@, r, ray_t, first, second, n);
        },
    }
}

/// Two scans of a list, for one ray and one range, agree on every outcome.
pub proof fn lemma_scan_is_determined<A: Arithmetic>(
    ar: &A,
    objects: Seq<Arc<Hittable>>,
    r: Ray,
    ray_t: Interval,
    first: Seq<Option<HitRecord>>,
    second: Seq<Option<HitRecord>>,
    n: int,
)
    requires
        is_function(ar),
        is_scan(ar, objects, r, ray_t, first),
        is_scan(ar, objects, r, ray_t, second),
        0 <= n <= objects.len(),
    ensures
        forall|k: int| 0 <= k < n ==> #[trigger] first[k] == second[k],
        best_before(first, n) == best_before(second, n),
    decreases objects, n,
{
    if n > 0 {
        lemma_scan_is_determined(ar, objects, r, ray_t, first, second, n - 1);
        lemma_hit_is_determined(
            ar,
            &*objects[n - 1],
            r,
            narrowed(ray_t, first, n - 1),
            first[n - 1],
            second[n - 1],
        );
    }
}

/// A ray and a range have one nearest hit in a list.
pub proof fn lemma_nearest_is_determined<A: Arithmetic>(
    ar: &A,
    objects: Seq<Arc<Hittable>>,
    r: Ray,
    ray_t: Interval,
    a: Option<HitRecord>,
    b: Option<HitRecord>,
)
    requires
        is_function(ar),
        is_nearest(ar, objects, r, ray_t, a),
        is_nearest(ar, objects, r, ray_t, b),
    ensures
        a == b,
{
    let n = objects.len() as int;
    let first = choose|o: Seq<Option<HitRecord>>|
        #[trigger] is_scan(ar, objects, r, ray_t, o) && a == best_before(o, n);
    let second = choose|o: Seq<Option<HitRecord>>|
        #[trigger] is_scan(ar, objects, r, ray_t, o) && b == best_before(o, n);
    lemma_scan_is_determined(ar, objects, r, ray_t, first, second, n);
}

/// A direction has one colour of the sky.
pub proof fn lemma_sky_is_determined<A: Arithmetic>(ar: &A, direction: Vec3, a: Color, b: Color)
    requires
        is_function(ar),
        is_sky(ar, direction, a),
        is_sky(ar, direction, b),
    ensures
        a == b,
{
}

/// A linear colour is written out in one way.
pub proof fn lemma_written_is_determined<A: Arithmetic>(ar: &A, color: Color, a: Rgb, b: Rgb)
    requires
        is_function(ar),
        is_written(ar, color, a),
        is_written(ar, color, b),
    ensures
        a == b,
{
}

} // verus!
