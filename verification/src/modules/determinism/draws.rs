//! One source, one draw: numbers, vectors, directions and points of the disk.
use crate::modules::arithmetic::Arithmetic;
use crate::modules::conversion::{is_unit_fraction, lemma_unit_fraction_is_determined};
use crate::modules::determinism::{is_function, is_repeatable};
use crate::modules::sampler::{is_draw, Sampler};
use crate::modules::scalar::{Scalar, ONE_BITS};
use crate::modules::utils::{is_between, is_ranged_draw, is_unit_draw};
use crate::modules::vec3::{
    in_unit_ball, in_unit_disk, is_cube_candidate, is_direction_draw, is_disk_candidate,
    is_disk_draw, is_disk_rejections, is_dot, is_normalized, is_ranged_vector, is_rejections,
    is_taken_direction, Vec3, MINUS_ONE_BITS, REFUSAL_LIMIT,
};
use vstd::prelude::*;

verus! {

/// One draw from a source gives one number and leaves one source.
pub proof fn lemma_unit_draw_is_determined<S: Sampler>(
    before: S,
    after: S,
    r: Scalar,
    after2: S,
    r2: Scalar,
)
    requires
        is_repeatable::<S>(),
        is_unit_draw(before, after, r),
        is_unit_draw(before, after2, r2),
    ensures
        after == after2,
        r == r2,
{
    let bits = choose|bits: u64| is_draw(before, bits, after) && is_unit_fraction(bits, r);
    let bits2 = choose|bits: u64| is_draw(before, bits, after2) && is_unit_fraction(bits, r2);
    lemma_unit_fraction_is_determined(bits, r, r2);
}

/// One draw from a source gives one number of a range.
pub proof fn lemma_ranged_draw_is_determined<A: Arithmetic, S: Sampler>(
    ar: &A,
    min: Scalar,
    max: Scalar,
    before: S,
    after: S,
    r: Scalar,
    after2: S,
    r2: Scalar,
)
    requires
        is_function(ar),
        is_repeatable::<S>(),
        is_ranged_draw(ar, min, max, before, after, r),
        is_ranged_draw(ar, min, max, before, after2, r2),
    ensures
        after == after2,
        r == r2,
{
    let u = choose|u: Scalar| is_unit_draw(before, after, u) && is_between(ar, min, max, u, r);
    let u2 = choose|u: Scalar| is_unit_draw(before, after2, u) && is_between(ar, min, max, u, r2);
    lemma_unit_draw_is_determined(before, after, u, after2, u2);
}

/// Three draws from a source give one vector of a range.
pub proof fn lemma_ranged_vector_is_determined<A: Arithmetic, S: Sampler>(
    ar: &A,
    min: Scalar,
    max: Scalar,
    before: S,
    after: S,
    r: Vec3,
    after2: S,
    r2: Vec3,
)
    requires
        is_function(ar),
        is_repeatable::<S>(),
        is_ranged_vector(ar, min, max, before, after, r),
        is_ranged_vector(ar, min, max, before, after2, r2),
    ensures
        after == after2,
        r == r2,
{
    let (a, b) = choose|a: S, b: S|
        is_ranged_draw(ar, min, max, before, a, r.x) && is_ranged_draw(ar, min, max, a, b, r.y)
            && is_ranged_draw(ar, min, max, b, after, r.z);
    let (a2, b2) = choose|a: S, b: S|
        is_ranged_draw(ar, min, max, before, a, r2.x) && is_ranged_draw(ar, min, max, a, b, r2.y)
            && is_ranged_draw(ar, min, max, b, after2, r2.z);
    lemma_ranged_draw_is_determined(ar, min, max, before, a, r.x, a2, r2.x);
    lemma_ranged_draw_is_determined(ar, min, max, a, b, r.y, b2, r2.y);
    lemma_ranged_draw_is_determined(ar, min, max, b, after, r.z, after2, r2.z);
}

/// The next candidate from a source is turned down.
pub open spec fn is_next_rejected<A: Arithmetic, S: Sampler>(ar: &A, before: S) -> bool {
    exists|after: S, p: Vec3, squared: Scalar|
        #[trigger] is_cube_candidate(ar, before, after, p) && #[trigger] is_dot(ar, p, p, squared)
            && !in_unit_ball(squared)
}

/// A number of rejections from a source leave one source.
pub proof fn lemma_rejections_are_determined<A: Arithmetic, S: Sampler>(
    ar: &A,
    before: S,
    after: S,
    after2: S,
    n: nat,
)
    requires
        is_function(ar),
        is_repeatable::<S>(),
        is_rejections(ar, before, after, n),
        is_rejections(ar, before, after2, n),
    ensures
        after == after2,
    decreases n,
{
    if n > 0 {
        let (mid, p, squared) = choose|mid: S, p: Vec3, squared: Scalar|
            is_rejections(ar, before, mid, (n - 1) as nat) && #[trigger] is_cube_candidate(
                ar,
                mid,
                after,
                p,
            ) && #[trigger] is_dot(ar, p, p, squared) && !in_unit_ball(squared);
        let (mid2, p2, squared2) = choose|mid: S, p: Vec3, squared: Scalar|
            is_rejections(ar, before, mid, (n - 1) as nat) && #[trigger] is_cube_candidate(
                ar,
                mid,
                after2,
                p,
            ) && #[trigger] is_dot(ar, p, p, squared) && !in_unit_ball(squared);
        lemma_rejections_are_determined(ar, before, mid, mid2, (n - 1) as nat);
        lemma_ranged_vector_is_determined(
            ar,
            Scalar { bits: MINUS_ONE_BITS },
            Scalar { bits: ONE_BITS },
            mid,
            after,
            p,
            after2,
            p2,
        );
    }
}

/// Among `n` rejections, the one after the first `k` is a rejection.
pub proof fn lemma_rejections_split<A: Arithmetic, S: Sampler>(
    ar: &A,
    before: S,
    after: S,
    n: nat,
    k: nat,
)
    requires
        is_rejections(ar, before, after, n),
        k < n,
    ensures
        exists|mid: S| #[trigger] is_rejections(ar, before, mid, k) && is_next_rejected(ar, mid),
    decreases n,
{
    let (mid, p, squared) = choose|mid: S, p: Vec3, squared: Scalar|
        is_rejections(ar, before, mid, (n - 1) as nat) && #[trigger] is_cube_candidate(
            ar,
            mid,
            after,
            p,
        ) && #[trigger] is_dot(ar, p, p, squared) && !in_unit_ball(squared);
    if n - 1 == k {
        assert(is_next_rejected(ar, mid));
    } else {
        lemma_rejections_split(ar, before, mid, (n - 1) as nat, k);
    }
}

/// A candidate that is turned down is not taken, unless it is forced.
pub proof fn lemma_rejected_is_not_taken<A: Arithmetic, S: Sampler>(
    ar: &A,
    before: S,
    after: S,
    u: Vec3,
)
    requires
        is_function(ar),
        is_repeatable::<S>(),
        is_next_rejected(ar, before),
    ensures
        !is_taken_direction(ar, before, after, false, u),
{
    if is_taken_direction(ar, before, after, false, u) {
        let (p, squared) = choose|p: Vec3, squared: Scalar|
            #[trigger] is_cube_candidate(ar, before, after, p) && #[trigger] is_dot(
                ar,
                p,
                p,
                squared,
            ) && (in_unit_ball(squared) || false) && is_normalized(ar, p, squared, u);
        let (after2, p2, squared2) = choose|after2: S, p2: Vec3, squared2: Scalar|
            #[trigger] is_cube_candidate(ar, before, after2, p2) && #[trigger] is_dot(
                ar,
                p2,
                p2,
                squared2,
            ) && !in_unit_ball(squared2);
        lemma_ranged_vector_is_determined(
            ar,
            Scalar { bits: MINUS_ONE_BITS },
            Scalar { bits: ONE_BITS },
            before,
            after,
            p,
            after2,
            p2,
        );
    }
}

/// The next candidate from a source gives one direction.
pub proof fn lemma_taken_direction_is_determined<A: Arithmetic, S: Sampler>(
    ar: &A,
    before: S,
    forced: bool,
    after: S,
    u: Vec3,
    after2: S,
    u2: Vec3,
)
    requires
        is_function(ar),
        is_repeatable::<S>(),
        is_taken_direction(ar, before, after, forced, u),
        is_taken_direction(ar, before, after2, forced, u2),
    ensures
        after == after2,
        u == u2,
{
    let (p, squared) = choose|p: Vec3, squared: Scalar|
        #[trigger] is_cube_candidate(ar, before, after, p) && #[trigger] is_dot(ar, p, p, squared)
            && (in_unit_ball(squared) || forced) && is_normalized(ar, p, squared, u);
    let (p2, squared2) = choose|p: Vec3, squared: Scalar|
        #[trigger] is_cube_candidate(ar, before, after2, p) && #[trigger] is_dot(ar, p, p, squared)
            && (in_unit_ball(squared) || forced) && is_normalized(ar, p, squared, u2);
    lemma_ranged_vector_is_determined(
        ar,
        Scalar { bits: MINUS_ONE_BITS },
        Scalar { bits: ONE_BITS },
        before,
        after,
        p,
        after2,
        p2,
    );
}

/// Drawing a direction from a source has one result.
pub proof fn lemma_direction_draw_is_determined<A: Arithmetic, S: Sampler>(
    ar: &A,
    before: S,
    after: S,
    u: Vec3,
    after2: S,
    u2: Vec3,
)
    requires
        is_function(ar),
        is_repeatable::<S>(),
        is_direction_draw(ar, before, after, u),
        is_direction_draw(ar, before, after2, u2),
    ensures
        after == after2,
        u == u2,
{
    let (n, mid) = choose|n: nat, mid: S|
        #[trigger] is_rejections(ar, before, mid, n) && n <= REFUSAL_LIMIT && is_taken_direction(
            ar,
            mid,
            after,
            n == REFUSAL_LIMIT,
            u,
        );
    let (n2, mid2) = choose|n: nat, mid: S|
        #[trigger] is_rejections(ar, before, mid, n) && n <= REFUSAL_LIMIT && is_taken_direction(
            ar,
            mid,
            after2,
            n == REFUSAL_LIMIT,
            u2,
        );
    if n < n2 {
        lemma_rejections_split(ar, before, mid2, n2, n);
        let m = choose|m: S| #[trigger] is_rejections(ar, before, m, n) && is_next_rejected(ar, m);
        lemma_rejections_are_determined(ar, before, mid, m, n);
        lemma_rejected_is_not_taken(ar, mid, after, u);
    } else if n2 < n {
        lemma_rejections_split(ar, before, mid, n, n2);
        let m = choose|m: S| #[trigger] is_rejections(ar, before, m, n2) && is_next_rejected(ar, m);
        lemma_rejections_are_determined(ar, before, mid2, m, n2);
        lemma_rejected_is_not_taken(ar, mid2, after2, u2);
    } else {
        lemma_rejections_are_determined(ar, before, mid, mid2, n);
        lemma_taken_direction_is_determined(ar, mid, n == REFUSAL_LIMIT, after, u, after2, u2);
    }
}

/// A direction is made of the first candidate that is not refused: where
/// `n` candidates from `before` are refused and the next one lies in the
/// unit ball, not too close to its centre, what is drawn from `before` is
/// that one divided by its length, and the source left is the one after it.
pub proof fn lemma_first_accepted_direction_is_drawn<A: Arithmetic, S: Sampler>(
    ar: &A,
    before: S,
    n: nat,
    mid: S,
    after: S,
    u: Vec3,
    left: S,
    drawn: Vec3,
)
    requires
        is_function(ar),
        is_repeatable::<S>(),
        is_rejections(ar, before, mid, n),
        n <= REFUSAL_LIMIT,
        is_taken_direction(ar, mid, after, false, u),
        is_direction_draw(ar, before, left, drawn),
    ensures
        drawn == u,
        left == after,
{
    assert(is_taken_direction(ar, mid, after, n == REFUSAL_LIMIT, u));
    assert(is_direction_draw(ar, before, after, u));
    lemma_direction_draw_is_determined(ar, before, after, u, left, drawn);
}

/// The next candidate for a point of the disk gives one point.
pub proof fn lemma_disk_candidate_is_determined<A: Arithmetic, S: Sampler>(
    ar: &A,
    before: S,
    after: S,
    p: Vec3,
    after2: S,
    p2: Vec3,
)
    requires
        is_function(ar),
        is_repeatable::<S>(),
        is_disk_candidate(ar, before, after, p),
        is_disk_candidate(ar, before, after2, p2),
    ensures
        after == after2,
        p == p2,
{
    let low = Scalar { bits: MINUS_ONE_BITS };
    let high = Scalar { bits: ONE_BITS };
    let a = choose|a: S|
        #[trigger] is_ranged_draw(ar, low, high, before, a, p.x) && is_ranged_draw(
            ar,
            low,
            high,
            a,
            after,
            p.y,
        );
    let a2 = choose|a: S|
        #[trigger] is_ranged_draw(ar, low, high, before, a, p2.x) && is_ranged_draw(
            ar,
            low,
            high,
            a,
            after2,
            p2.y,
        );
    lemma_ranged_draw_is_determined(ar, low, high, before, a, p.x, a2, p2.x);
    lemma_ranged_draw_is_determined(ar, low, high, a, after, p.y, after2, p2.y);
}

/// The next candidate for a point of the disk is turned down.
pub open spec fn is_next_disk_rejected<A: Arithmetic, S: Sampler>(ar: &A, before: S) -> bool {
    exists|after: S, p: Vec3|
        #[trigger] is_disk_candidate(ar, before, after, p) && in_unit_disk(ar, p, false)
}

/// A number of rejections for the disk leave one source.
pub proof fn lemma_disk_rejections_are_determined<A: Arithmetic, S: Sampler>(
    ar: &A,
    before: S,
    after: S,
    after2: S,
    n: nat,
)
    requires
        is_function(ar),
        is_repeatable::<S>(),
        is_disk_rejections(ar, before, after, n),
        is_disk_rejections(ar, before, after2, n),
    ensures
        after == after2,
    decreases n,
{
    if n > 0 {
        let (mid, p) = choose|mid: S, p: Vec3|
            is_disk_rejections(ar, before, mid, (n - 1) as nat) && #[trigger] is_disk_candidate(
                ar,
                mid,
                after,
                p,
            ) && in_unit_disk(ar, p, false);
        let (mid2, p2) = choose|mid: S, p: Vec3|
            is_disk_rejections(ar, before, mid, (n - 1) as nat) && #[trigger] is_disk_candidate(
                ar,
                mid,
                after2,
                p,
            ) && in_unit_disk(ar, p, false);
        lemma_disk_rejections_are_determined(ar, before, mid, mid2, (n - 1) as nat);
        lemma_disk_candidate_is_determined(ar, mid, after, p, after2, p2);
    }
}

/// Among `n` rejections for the disk, the one after the first `k` is a
/// rejection.
pub proof fn lemma_disk_rejections_split<A: Arithmetic, S: Sampler>(
    ar: &A,
    before: S,
    after: S,
    n: nat,
    k: nat,
)
    requires
        is_disk_rejections(ar, before, after, n),
        k < n,
    ensures
        exists|mid: S|
            #[trigger] is_disk_rejections(ar, before, mid, k) && is_next_disk_rejected(ar, mid),
    decreases n,
{
    let (mid, p) = choose|mid: S, p: Vec3|
        is_disk_rejections(ar, before, mid, (n - 1) as nat) && #[trigger] is_disk_candidate(
            ar,
            mid,
            after,
            p,
        ) && in_unit_disk(ar, p, false);
    if n - 1 == k {
        assert(is_next_disk_rejected(ar, mid));
    } else {
        lemma_disk_rejections_split(ar, before, mid, (n - 1) as nat, k);
    }
}

/// Whether a point lies in the unit disk has one answer.
pub proof fn lemma_in_unit_disk_is_determined<A: Arithmetic>(ar: &A, p: Vec3, a: bool, b: bool)
    requires
        is_function(ar),
        in_unit_disk(ar, p, a),
        in_unit_disk(ar, p, b),
    ensures
        a == b,
{
}

/// Drawing a point of the disk from a source has one result.
pub proof fn lemma_disk_draw_is_determined<A: Arithmetic, S: Sampler>(
    ar: &A,
    before: S,
    after: S,
    p: Vec3,
    after2: S,
    p2: Vec3,
)
    requires
        is_function(ar),
        is_repeatable::<S>(),
        is_disk_draw(ar, before, after, p),
        is_disk_draw(ar, before, after2, p2),
    ensures
        after == after2,
        p == p2,
{
    let (n, mid, inside) = choose|n: nat, mid: S, inside: bool|
        #[trigger] is_disk_rejections(ar, before, mid, n) && n <= REFUSAL_LIMIT
            && is_disk_candidate(ar, mid, after, p) && #[trigger] in_unit_disk(ar, p, inside) && (
        inside || n == REFUSAL_LIMIT);
    let (n2, mid2, inside2) = choose|n: nat, mid: S, inside: bool|
        #[trigger] is_disk_rejections(ar, before, mid, n) && n <= REFUSAL_LIMIT
            && is_disk_candidate(ar, mid, after2, p2) && #[trigger] in_unit_disk(ar, p2, inside)
            && (inside || n == REFUSAL_LIMIT);
    if n < n2 {
        lemma_disk_rejections_split(ar, before, mid2, n2, n);
        let m = choose|m: S|
            #[trigger] is_disk_rejections(ar, before, m, n) && is_next_disk_rejected(ar, m);
        lemma_disk_rejections_are_determined(ar, before, mid, m, n);
        let (next, q) = choose|next: S, q: Vec3|
            #[trigger] is_disk_candidate(ar, mid, next, q) && in_unit_disk(ar, q, false);
        lemma_disk_candidate_is_determined(ar, mid, after, p, next, q);
        lemma_in_unit_disk_is_determined(ar, p, inside, false);
    } else if n2 < n {
        lemma_disk_rejections_split(ar, before, mid, n, n2);
        let m = choose|m: S|
            #[trigger] is_disk_rejections(ar, before, m, n2) && is_next_disk_rejected(ar, m);
        lemma_disk_rejections_are_determined(ar, before, mid2, m, n2);
        let (next, q) = choose|next: S, q: Vec3|
            #[trigger] is_disk_candidate(ar, mid2, next, q) && in_unit_disk(ar, q, false);
        lemma_disk_candidate_is_determined(ar, mid2, after2, p2, next, q);
        lemma_in_unit_disk_is_determined(ar, p2, inside2, false);
    } else {
        lemma_disk_rejections_are_determined(ar, before, mid, mid2, n);
        lemma_disk_candidate_is_determined(ar, mid, after, p, after2, p2);
    }
}

/// A point of the disk is the first candidate that is not refused: where
/// `n` candidates from `before` are refused and the next one lies in the
/// disk, what is drawn from `before` is that one, and the source left is
/// the one after it.
pub proof fn lemma_first_accepted_disk_point_is_drawn<A: Arithmetic, S: Sampler>(
    ar: &A,
    before: S,
    n: nat,
    mid: S,
    after: S,
    p: Vec3,
    left: S,
    drawn: Vec3,
)
    requires
        is_function(ar),
        is_repeatable::<S>(),
        is_disk_rejections(ar, before, mid, n),
        n <= REFUSAL_LIMIT,
        is_disk_candidate(ar, mid, after, p),
        in_unit_disk(ar, p, true),
        is_disk_draw(ar, before, left, drawn),
    ensures
        drawn == p,
        left == after,
{
    assert(is_disk_draw(ar, before, after, p));
    lemma_disk_draw_is_determined(ar, before, after, p, left, drawn);
}

} // verus!
