//! The scene: a list of things that a ray can hit.
use crate::modules::arithmetic::Arithmetic;
use crate::modules::hittable::{
    best_before, is_hit, is_nearest, is_scan, narrowed, HitRecord, Hittable,
};
use crate::modules::interval::Interval;
use crate::modules::ray::Ray;
use std::sync::Arc;
use vstd::prelude::*;

verus! {

/// A list of shared handles to hittable things, in the order in which they
/// were added. Several lists may hold the same thing.
pub struct HittableList {
    objects: Vec<Arc<Hittable>>,
}

impl View for HittableList {
    type V = Seq<Arc<Hittable>>;

    closed spec fn view(&self) -> Seq<Arc<Hittable>> {
        self.objects@
    }
}

/// The things of a list are parts of it: what is defined or proved along
/// the structure of a thing may go from a list on to what it holds.
pub proof fn lemma_things_are_parts(list: &HittableList)
    ensures
        decreases_to!(*list => list@),
{
}

impl HittableList {
    /// The empty list.
    pub fn new() -> (r: HittableList)
        ensures
            r@.len() == 0,
    {
        HittableList { objects: Vec::new() }
    }

    /// Appends a thing to the list.
    pub fn add(&mut self, object: Arc<Hittable>)
        ensures
            final(self)@ == old(self)@.push(object),
    {
        self.objects.push(object);
    }

    /// Empties the list.
    pub fn clear(&mut self)
        ensures
            final(self)@.len() == 0,
    {
        self.objects.clear();
    }

    /// How many things the list holds.
    pub fn len(&self) -> (n: usize)
        ensures
            n == self@.len(),
    {
        self.objects.len()
    }

    /// The nearest hit of the ray among the things of the list, inside the
    /// open range `ray_t`.
    ///
    /// The things are asked in order, each with the upper bound of the range
    /// lowered to the parameter of the nearest hit so far, so that a hit
    /// replaces the one before only where it is strictly nearer. The empty
    /// list reports no hit.
    pub fn hit<A: Arithmetic>(&self, ar: &A, r: &Ray, ray_t: Interval) -> (res: Option<HitRecord>)
        ensures
            is_nearest(ar, self@, *r, ray_t, res),
            res matches Some(rec) ==> ray_t.surrounding(rec.t),
            self@.len() == 0 ==> res is None,
        decreases self,
    {
        let mut best: Option<HitRecord> = None;
        let mut closest_so_far = ray_t.max;
        let ghost mut outcomes: Seq<Option<HitRecord>> = Seq::empty();
        let mut i: usize = 0;
        while i < self.objects.len()
            invariant
                i <= self.objects.len(),
                outcomes.len() == i,
                forall|k: int|
                    0 <= k < i ==> is_hit(
                        ar,
                        *self.objects@[k],
                        *r,
                        narrowed(ray_t, outcomes, k),
                        #[trigger] outcomes[k],
                    ),
                best == best_before(outcomes, i as int),
                closest_so_far == narrowed(ray_t, outcomes, i as int).max,
                best matches Some(rec) ==> ray_t.surrounding(rec.t),
            decreases self.objects.len() - i,
        {
            let range = Interval::new(ray_t.min, closest_so_far);
            let found = self.objects[i].hit(ar, r, range);
            proof {
                let longer = outcomes.push(found);
                assert forall|k: int| 0 <= k <= i implies best_before(longer, k) == best_before(
                    outcomes,
                    k,
                ) by {
                    lemma_best_before_push(outcomes, found, k);
                }
                outcomes = longer;
            }
            match found {
                Some(rec) => {
                    closest_so_far = rec.t;
                    best = Some(rec);
                },
                None => {},
            }
            i = i + 1;
        }
        assert(is_scan(ar, self@, *r, ray_t, outcomes));
        assert(best == best_before(outcomes, self@.len() as int));
        assert(is_nearest(ar, self@, *r, ray_t, best));
        best
    }
}

/// A scan that goes on does not change what was best before.
pub proof fn lemma_best_before_push(
    outcomes: Seq<Option<HitRecord>>,
    next: Option<HitRecord>,
    n: int,
)
    requires
        n <= outcomes.len(),
    ensures
        best_before(outcomes.push(next), n) == best_before(outcomes, n),
    decreases n,
{
    if n > 0 {
        lemma_best_before_push(outcomes, next, n - 1);
    }
}

} // verus!
