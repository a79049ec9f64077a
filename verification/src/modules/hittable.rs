//! What a ray can hit, and the record of a hit.
use crate::modules::arithmetic::Arithmetic;
use crate::modules::color::Color;
use crate::modules::hittable_list::{lemma_things_are_parts, HittableList};
use crate::modules::interval::Interval;
use crate::modules::material::{Lambertian, Material};
use crate::modules::ray::Ray;
use crate::modules::scalar::Scalar;
use crate::modules::sphere::{is_sphere_hit, Sphere};
use crate::modules::vec3::{is_dot, Point3, Vec3};
use std::sync::Arc;
use vstd::prelude::*;

verus! {

/// The pattern of 0.4: the grey of the material a fresh record carries.
pub const DEFAULT_GREY_BITS: u64 = 0x3FD9_9999_9999_999A;

/// Where and how a ray met a surface.
///
/// The normal points against the ray. The material is a shared handle: the
/// record does not own it.
#[derive(Debug)]
pub struct HitRecord {
    pub p: Point3,
    pub normal: Vec3,
    pub mat: Arc<Material>,
    pub t: Scalar,
    pub front_face: bool,
}

/// `Arc::clone`: one more handle to the value that `handle` points to.
#[verifier::external_body]
pub(crate) fn share(handle: &Arc<Material>) -> (r: Arc<Material>)
    ensures
        r == *handle,
{
    Arc::clone(handle)
}

/// Whether the ray meets the surface from outside, where `cosine` is the dot
/// product of its direction and the outward normal.
pub open spec fn meets_front(cosine: Scalar) -> bool {
    cosine.below(Scalar { bits: 0 })
}

/// The normal turned against the ray: the outward normal where the ray comes
/// from outside, its reverse where it comes from inside.
pub open spec fn against(front_face: bool, outward_normal: Vec3) -> Vec3 {
    if front_face {
        outward_normal
    } else {
        outward_normal.reversed()
    }
}

impl Clone for HitRecord {
    /// A record of the same hit, with one more handle to its material.
    fn clone(&self) -> (r: HitRecord)
        ensures
            r == *self,
    {
        HitRecord {
            p: self.p,
            normal: self.normal,
            mat: share(&self.mat),
            t: self.t,
            front_face: self.front_face,
        }
    }
}

impl HitRecord {
    /// A record at the origin, at parameter zero, with a grey diffuse
    /// material.
    pub fn default() -> (r: HitRecord)
        ensures
            r.p == Vec3::zero_vector(),
            r.normal == Vec3::zero_vector(),
            r.t.bits == 0,
            !r.front_face,
            *r.mat matches Material::Lambertian(m) && m.albedo() == (Vec3 {
                x: Scalar { bits: DEFAULT_GREY_BITS },
                y: Scalar { bits: DEFAULT_GREY_BITS },
                z: Scalar { bits: DEFAULT_GREY_BITS },
            }),
    {
        let grey = Scalar::from_bits(DEFAULT_GREY_BITS);
        let albedo = Color::new(grey, grey, grey);
        let default_material = Arc::new(Material::Lambertian(Lambertian::new(albedo)));
        HitRecord {
            p: Vec3::zero(),
            normal: Vec3::zero(),
            mat: default_material,
            t: Scalar::zero(),
            front_face: false,
        }
    }

    /// The side and the normal for a given dot product of ray direction and
    /// outward normal.
    pub fn orient(cosine: Scalar, outward_normal: Vec3) -> (r: (bool, Vec3))
        ensures
            r.0 == meets_front(cosine),
            r.1 == against(r.0, outward_normal),
    {
        let front_face = cosine.lt(Scalar::zero());
        let normal = if front_face {
            outward_normal
        } else {
            outward_normal.neg()
        };
        (front_face, normal)
    }

    /// Sets the side and the normal of the record. `outward_normal` is taken
    /// to have length one.
    pub fn set_face_normal<A: Arithmetic>(&mut self, ar: &A, r: &Ray, outward_normal: Vec3)
        ensures
            exists|cosine: Scalar|
                #[trigger] is_dot(ar, r.direction, outward_normal, cosine) && final(self).front_face
                    == meets_front(cosine),
            final(self).normal == against(final(self).front_face, outward_normal),
            final(self).p == old(self).p,
            final(self).t == old(self).t,
            final(self).mat == old(self).mat,
    {
        let cosine = r.direction().dot(ar, &outward_normal);
        let (front_face, normal) = HitRecord::orient(cosine, outward_normal);
        self.front_face = front_face;
        self.normal = normal;
    }
}

/// The things a ray can hit: a sphere, or a list of such things.
pub enum Hittable {
    Sphere(Sphere),
    List(HittableList),
}

/// The last hit among the first `n` outcomes of a scan, if any.
pub open spec fn best_before(outcomes: Seq<Option<HitRecord>>, n: int) -> Option<HitRecord>
    decreases n,
{
    if n <= 0 {
        None
    } else if outcomes[n - 1] is Some {
        outcomes[n - 1]
    } else {
        best_before(outcomes, n - 1)
    }
}

/// The range in which the `n`-th thing of a list is asked: the lower bound
/// of `ray_t`, and for the upper bound the parameter of the last hit so far,
/// or that of `ray_t` if nothing was hit yet.
pub open spec fn narrowed(ray_t: Interval, outcomes: Seq<Option<HitRecord>>, n: int) -> Interval {
    Interval {
        min: ray_t.min,
        max: match best_before(outcomes, n) {
            Some(rec) => rec.t,
            None => ray_t.max,
        },
    }
}

/// `res` is what the thing reports for the ray and the range: for a sphere
/// its own hit, for a list the nearest hit of its scan.
pub open spec fn is_hit<A: Arithmetic>(
    ar: &A,
    object: Hittable,
    r: Ray,
    ray_t: Interval,
    res: Option<HitRecord>,
) -> bool
    decreases object, 1int,
{
    match object {
        Hittable::Sphere(sphere) => is_sphere_hit(ar, sphere, r, ray_t, res),
        Hittable::List(list) => {
            proof {
                lemma_things_are_parts(&list);
            }
            exists|outcomes: Seq<Option<HitRecord>>|
                is_scan(ar, list@, r, ray_t, outcomes) && res == #[trigger] best_before(
                    outcomes,
                    list@.len() as int,
                )
        },
    }
}

/// `outcomes` is a scan of the list: what each thing reports, in order,
/// asked in the range narrowed by the hits before it.
pub open spec fn is_scan<A: Arithmetic>(
    ar: &A,
    objects: Seq<Arc<Hittable>>,
    r: Ray,
    ray_t: Interval,
    outcomes: Seq<Option<HitRecord>>,
) -> bool
    decreases objects, 0int,
{
    &&& outcomes.len() == objects.len()
    &&& forall|i: int|
        0 <= i < objects.len() ==> is_hit(
            ar,
            *objects[i],
            r,
            narrowed(ray_t, outcomes, i),
            #[trigger] outcomes[i],
        )
}

/// `res` is the nearest hit among the things of a list: the last hit of a
/// scan. Each hit of a scan is nearer than the one before, so the last is
/// the nearest.
pub open spec fn is_nearest<A: Arithmetic>(
    ar: &A,
    objects: Seq<Arc<Hittable>>,
    r: Ray,
    ray_t: Interval,
    res: Option<HitRecord>,
) -> bool {
    exists|outcomes: Seq<Option<HitRecord>>|
        #[trigger] is_scan(ar, objects, r, ray_t, outcomes) && res == best_before(
            outcomes,
            objects.len() as int,
        )
}

/// What a thing reports lies inside the range in which it was asked.
pub proof fn lemma_hit_in_range<A: Arithmetic>(
    ar: &A,
    object: &Hittable,
    r: Ray,
    ray_t: Interval,
    res: Option<HitRecord>,
)
    requires
        is_hit(ar, *object, r, ray_t, res),
    ensures
        res matches Some(rec) ==> ray_t.surrounding(rec.t),
    decreases *object, 0int,
{
    match object {
        Hittable::Sphere(sphere) => {},
        Hittable::List(list) => {
            lemma_things_are_parts(list);
            let outcomes = choose|o: Seq<Option<HitRecord>>|
                is_scan(ar, list@, r, ray_t, o) && res == #[trigger] best_before(
                    o,
                    list@.len() as int,
                );
            lemma_scan_gets_nearer(
                ar,
                list@,
                r,
                ray_t,
                outcomes,
                list@.len() as int,
            );
        },
    }
}

/// Along a scan the hits get nearer: the last hit among the first `n`
/// outcomes lies inside the range of the scan, and no hit before it is
/// nearer.
pub proof fn lemma_scan_gets_nearer<A: Arithmetic>(
    ar: &A,
    objects: Seq<Arc<Hittable>>,
    r: Ray,
    ray_t: Interval,
    outcomes: Seq<Option<HitRecord>>,
    n: int,
)
    requires
        is_scan(ar, objects, r, ray_t, outcomes),
        0 <= n <= objects.len(),
    ensures
        best_before(outcomes, n) matches Some(best) ==> ray_t.surrounding(best.t) && forall|k: int|
            0 <= k < n ==> (#[trigger] outcomes[k] matches Some(rec) ==> !best.t.nan()
                && !rec.t.nan() && best.t.scaled() <= rec.t.scaled()),
        best_before(outcomes, n) is None ==> forall|k: int|
            0 <= k < n ==> #[trigger] outcomes[k] is None,
    decreases objects, n,
{
    if n > 0 {
        lemma_scan_gets_nearer(ar, objects, r, ray_t, outcomes, n - 1);
        lemma_hit_in_range(
            ar,
            &*objects[n - 1],
            r,
            narrowed(ray_t, outcomes, n - 1),
            outcomes[n - 1],
        );
    }
}

/// The nearest hit of a list lies inside the range in which the list was
/// asked: above its lower bound and below its upper bound, never on either.
pub proof fn lemma_nearest_in_range<A: Arithmetic>(
    ar: &A,
    objects: Seq<Arc<Hittable>>,
    r: Ray,
    ray_t: Interval,
    res: Option<HitRecord>,
)
    requires
        is_nearest(ar, objects, r, ray_t, res),
    ensures
        res matches Some(rec) ==> ray_t.surrounding(rec.t),
        objects.len() == 0 ==> res is None,
{
    let outcomes = choose|o: Seq<Option<HitRecord>>|
        #[trigger] is_scan(ar, objects, r, ray_t, o) && res == best_before(o, objects.len() as int);
    lemma_scan_gets_nearer(ar, objects, r, ray_t, outcomes, objects.len() as int);
}

impl Hittable {
    /// The hit of the ray with the smallest parameter inside the open range
    /// `ray_t`, if there is one.
    pub fn hit<A: Arithmetic>(&self, ar: &A, r: &Ray, ray_t: Interval) -> (res: Option<HitRecord>)
        ensures
            is_hit(ar, *self, *r, ray_t, res),
            res matches Some(rec) ==> ray_t.surrounding(rec.t),
        decreases self,
    {
        match self {
            Hittable::Sphere(sphere) => {
                let res = sphere.hit(ar, r, ray_t);
                assert(is_hit(ar, *self, *r, ray_t, res));
                res
            },
            Hittable::List(list) => {
                let res = list.hit(ar, r, ray_t);
                proof {
                    let outcomes = choose|o: Seq<Option<HitRecord>>|
                        #[trigger] is_scan(ar, list@, *r, ray_t, o) && res == best_before(
                            o,
                            list@.len() as int,
                        );
                    assert(is_scan(ar, list@, *r, ray_t, outcomes));
                    assert(res == best_before(outcomes, list@.len() as int));
                }
                assert(is_hit(ar, *self, *r, ray_t, res));
                res
            },
        }
    }
}

} // verus!
