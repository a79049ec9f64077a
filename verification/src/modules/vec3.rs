//! Three-component vectors: points, directions and colours alike.
use crate::modules::arithmetic::{
    is_difference, is_product, is_quotient, is_square_root, is_sum, Arithmetic,
};
use crate::modules::sampler::Sampler;
use crate::modules::scalar::{Scalar, ONE_BITS};
use crate::modules::utils::{is_ranged_draw, is_unit_draw, random_double, random_double_range};
use vstd::prelude::*;

verus! {

/// The pattern of 1e-8: below it, in absolute value, a component counts as zero.
pub const NEAR_ZERO_BITS: u64 = 0x3E45_798E_E230_8C3A;

/// The pattern of 1e-160: a squared length at or below it is too small to
/// divide by.
pub const TINY_BITS: u64 = 0x1EB6_7E9C_127B_6E74;

/// The pattern of 2.0.
pub const TWO_BITS: u64 = 0x4000_0000_0000_0000;

/// The pattern of -1.0.
pub const MINUS_ONE_BITS: u64 = 0xBFF0_0000_0000_0000;

/// The largest number that the count of refused candidates can hold: a
/// rejection sampler that has refused so many in a row takes the next one
/// as it is.
pub const REFUSAL_LIMIT: u64 = 0xFFFF_FFFF_FFFF_FFFF;

#[derive(Clone, Copy, Debug, PartialEq, Eq, Structural)]
pub struct Vec3 {
    pub x: Scalar,
    pub y: Scalar,
    pub z: Scalar,
}

/// A point in space.
pub type Point3 = Vec3;

/// `r` is `a + b`, component by component.
pub open spec fn is_plus<A: Arithmetic>(ar: &A, a: Vec3, b: Vec3, r: Vec3) -> bool {
    is_sum(ar, a.x, b.x, r.x) && is_sum(ar, a.y, b.y, r.y) && is_sum(ar, a.z, b.z, r.z)
}

/// `r` is `a - b`, component by component.
pub open spec fn is_minus<A: Arithmetic>(ar: &A, a: Vec3, b: Vec3, r: Vec3) -> bool {
    is_difference(ar, a.x, b.x, r.x) && is_difference(ar, a.y, b.y, r.y) && is_difference(
        ar,
        a.z,
        b.z,
        r.z,
    )
}

/// `r` is `a * b`, component by component.
pub open spec fn is_times<A: Arithmetic>(ar: &A, a: Vec3, b: Vec3, r: Vec3) -> bool {
    is_product(ar, a.x, b.x, r.x) && is_product(ar, a.y, b.y, r.y) && is_product(
        ar,
        a.z,
        b.z,
        r.z,
    )
}

/// `r` is `k * v`: each product has the factor first.
pub open spec fn is_scaled<A: Arithmetic>(ar: &A, k: Scalar, v: Vec3, r: Vec3) -> bool {
    is_product(ar, k, v.x, r.x) && is_product(ar, k, v.y, r.y) && is_product(ar, k, v.z, r.z)
}

/// `r` is `v` with each component multiplied by `k` on the right.
pub open spec fn is_scaled_right<A: Arithmetic>(ar: &A, v: Vec3, k: Scalar, r: Vec3) -> bool {
    is_product(ar, v.x, k, r.x) && is_product(ar, v.y, k, r.y) && is_product(ar, v.z, k, r.z)
}

/// `r` is `v / k`, computed as `(1 / k) * v`.
pub open spec fn is_divided<A: Arithmetic>(ar: &A, v: Vec3, k: Scalar, r: Vec3) -> bool {
    exists|inverse: Scalar|
        is_quotient(ar, Scalar { bits: ONE_BITS }, k, inverse) && #[trigger] is_scaled(
            ar,
            inverse,
            v,
            r,
        )
}

/// `r` is the dot product `(a.x*b.x + a.y*b.y) + a.z*b.z`.
pub open spec fn is_dot<A: Arithmetic>(ar: &A, a: Vec3, b: Vec3, r: Scalar) -> bool {
    exists|px: Scalar, py: Scalar, pz: Scalar, s: Scalar|
        is_product(ar, a.x, b.x, px) && is_product(ar, a.y, b.y, py) && is_product(
            ar,
            a.z,
            b.z,
            pz,
        ) && is_sum(ar, px, py, s) && is_sum(ar, s, pz, r)
}

/// `r` is `a * b - c * d`.
pub open spec fn is_product_difference<A: Arithmetic>(
    ar: &A,
    a: Scalar,
    b: Scalar,
    c: Scalar,
    d: Scalar,
    r: Scalar,
) -> bool {
    exists|p: Scalar, q: Scalar|
        is_product(ar, a, b, p) && is_product(ar, c, d, q) && is_difference(ar, p, q, r)
}

/// `r` is the cross product of `a` and `b`.
pub open spec fn is_cross<A: Arithmetic>(ar: &A, a: Vec3, b: Vec3, r: Vec3) -> bool {
    is_product_difference(ar, a.y, b.z, a.z, b.y, r.x) && is_product_difference(
        ar,
        a.z,
        b.x,
        a.x,
        b.z,
        r.y,
    ) && is_product_difference(ar, a.x, b.y, a.y, b.x, r.z)
}

/// `r` is the length of `v`: the square root of its dot product with itself.
pub open spec fn is_length<A: Arithmetic>(ar: &A, v: Vec3, r: Scalar) -> bool {
    exists|squared: Scalar| #[trigger] is_dot(ar, v, v, squared) && is_square_root(ar, squared, r)
}

/// `r` is `v` divided by its length.
pub open spec fn is_unit_vector<A: Arithmetic>(ar: &A, v: Vec3, r: Vec3) -> bool {
    exists|length: Scalar| #[trigger] is_length(ar, v, length) && is_divided(ar, v, length, r)
}

/// `r` is `v - (2 * (v . n)) * n`.
pub open spec fn is_reflection<A: Arithmetic>(ar: &A, v: Vec3, n: Vec3, r: Vec3) -> bool {
    exists|d: Scalar, k: Scalar, w: Vec3|
        #[trigger] is_dot(ar, v, n, d) && is_product(ar, Scalar { bits: TWO_BITS }, d, k)
            && #[trigger] is_scaled(ar, k, n, w) && is_minus(ar, v, w, r)
}

/// The cosine that a refraction uses: the dot product of the direction with
/// the reversed normal, held to at most one.
pub open spec fn is_cosine<A: Arithmetic>(ar: &A, uv: Vec3, n: Vec3, r: Scalar) -> bool {
    exists|d: Scalar|
        #[trigger] is_dot(ar, uv, n.reversed(), d) && r == d.lesser(Scalar { bits: ONE_BITS })
}

/// The part of a refracted direction across the normal:
/// `ratio * (uv + cos * n)`.
pub open spec fn is_refraction_across<A: Arithmetic>(
    ar: &A,
    uv: Vec3,
    n: Vec3,
    ratio: Scalar,
    r: Vec3,
) -> bool {
    exists|cos: Scalar, w: Vec3, s: Vec3|
        #[trigger] is_cosine(ar, uv, n, cos) && #[trigger] is_scaled(ar, cos, n, w)
            && #[trigger] is_plus(ar, uv, w, s) && is_scaled(ar, ratio, s, r)
}

/// The part of a refracted direction along the normal, given the part
/// across it: `-sqrt(|1 - across . across|) * n`.
pub open spec fn is_refraction_along<A: Arithmetic>(
    ar: &A,
    across: Vec3,
    n: Vec3,
    r: Vec3,
) -> bool {
    exists|squared: Scalar, d: Scalar, root: Scalar|
        #[trigger] is_dot(ar, across, across, squared) && is_difference(
            ar,
            Scalar { bits: ONE_BITS },
            squared,
            d,
        ) && #[trigger] is_square_root(ar, d.magnitude_only(), root) && is_scaled(
            ar,
            root.opposite(),
            n,
            r,
        )
}

/// `r` is the direction `uv` bent at a surface with normal `n`: the sum of
/// its parts across and along the normal.
pub open spec fn is_refraction<A: Arithmetic>(
    ar: &A,
    uv: Vec3,
    n: Vec3,
    ratio: Scalar,
    r: Vec3,
) -> bool {
    exists|across: Vec3, along: Vec3|
        #[trigger] is_refraction_across(ar, uv, n, ratio, across) && #[trigger] is_refraction_along(
            ar,
            across,
            n,
            along,
        ) && is_plus(ar, across, along, r)
}

/// A squared length from which a candidate in the cube is kept as a
/// direction: above 1e-160 and at most one.
pub open spec fn in_unit_ball(squared: Scalar) -> bool {
    (Scalar { bits: TINY_BITS }).below(squared) && squared.at_most(Scalar { bits: ONE_BITS })
}

/// `r` is the candidate `p`, of squared length `squared`, divided by its
/// length.
pub open spec fn is_normalized<A: Arithmetic>(
    ar: &A,
    p: Vec3,
    squared: Scalar,
    r: Vec3,
) -> bool {
    exists|root: Scalar| is_square_root(ar, squared, root) && #[trigger] is_divided(ar, p, root, r)
}

/// `r` is a vector of three numbers drawn from `[0, 1)`, `x` first; the
/// draws lead from the source `before` to the source `after`.
pub open spec fn is_random_vector<S: Sampler>(before: S, after: S, r: Vec3) -> bool {
    exists|s1: S, s2: S|
        #[trigger] is_unit_draw(before, s1, r.x) && #[trigger] is_unit_draw(s1, s2, r.y)
            && is_unit_draw(s2, after, r.z)
}

/// `r` is a vector of three numbers drawn from `[min, max)`, `x` first.
pub open spec fn is_ranged_vector<A: Arithmetic, S: Sampler>(
    ar: &A,
    min: Scalar,
    max: Scalar,
    before: S,
    after: S,
    r: Vec3,
) -> bool {
    exists|s1: S, s2: S|
        #[trigger] is_ranged_draw(ar, min, max, before, s1, r.x) && #[trigger] is_ranged_draw(
            ar,
            min,
            max,
            s1,
            s2,
            r.y,
        ) && is_ranged_draw(ar, min, max, s2, after, r.z)
}

/// `p` is a candidate for a direction: a point drawn from the cube
/// `[-1, 1)^3`.
pub open spec fn is_cube_candidate<A: Arithmetic, S: Sampler>(
    ar: &A,
    before: S,
    after: S,
    p: Vec3,
) -> bool {
    is_ranged_vector(
        ar,
        Scalar { bits: MINUS_ONE_BITS },
        Scalar { bits: ONE_BITS },
        before,
        after,
        p,
    )
}

/// From `before`, `n` candidates were drawn one after the other and all
/// turned down, each outside the unit ball or too close to its centre;
/// `after` is the source they leave.
pub open spec fn is_rejections<A: Arithmetic, S: Sampler>(
    ar: &A,
    before: S,
    after: S,
    n: nat,
) -> bool
    decreases n,
{
    if n == 0 {
        after == before
    } else {
        exists|mid: S, p: Vec3, squared: Scalar|
            is_rejections(ar, before, mid, (n - 1) as nat) && #[trigger] is_cube_candidate(
                ar,
                mid,
                after,
                p,
            ) && #[trigger] is_dot(ar, p, p, squared) && !in_unit_ball(squared)
    }
}

/// `u` is the direction made of the next candidate, the candidate divided
/// by its length. The candidate lies in the unit ball, not too close to its
/// centre, unless it is `forced`.
pub open spec fn is_taken_direction<A: Arithmetic, S: Sampler>(
    ar: &A,
    before: S,
    after: S,
    forced: bool,
    u: Vec3,
) -> bool {
    exists|p: Vec3, squared: Scalar|
        #[trigger] is_cube_candidate(ar, before, after, p) && #[trigger] is_dot(ar, p, p, squared)
            && (in_unit_ball(squared) || forced) && is_normalized(ar, p, squared, u)
}

/// `u` is a random direction drawn by rejection: candidates are refused
/// until one lies in the unit ball, not too close to its centre, and `u` is
/// that one divided by its length; `after` is the source left after it.
///
/// The count of refusals is a machine number. Where `REFUSAL_LIMIT`
/// candidates in a row were refused, the next is taken whatever it is.
pub open spec fn is_direction_draw<A: Arithmetic, S: Sampler>(
    ar: &A,
    before: S,
    after: S,
    u: Vec3,
) -> bool {
    exists|n: nat, mid: S|
        #[trigger] is_rejections(ar, before, mid, n) && n <= REFUSAL_LIMIT && is_taken_direction(
            ar,
            mid,
            after,
            n == REFUSAL_LIMIT,
            u,
        )
}

/// `r` is a random direction in the hemisphere around `normal`: a drawn
/// direction, reversed unless its dot product with the normal is above
/// zero.
pub open spec fn is_hemisphere_draw<A: Arithmetic, S: Sampler>(
    ar: &A,
    normal: Vec3,
    before: S,
    after: S,
    r: Vec3,
) -> bool {
    exists|u: Vec3, cosine: Scalar|
        #[trigger] is_direction_draw(ar, before, after, u) && #[trigger] is_dot(
            ar,
            u,
            normal,
            cosine,
        ) && r == if (Scalar { bits: 0 }).below(cosine) {
            u
        } else {
            u.reversed()
        }
}

/// `p` is a candidate for a point of the unit disk: `x` and `y` are drawn
/// from `[-1, 1)`, `x` first, and `z` is zero.
pub open spec fn is_disk_candidate<A: Arithmetic, S: Sampler>(
    ar: &A,
    before: S,
    after: S,
    p: Vec3,
) -> bool {
    let low = Scalar { bits: MINUS_ONE_BITS };
    let high = Scalar { bits: ONE_BITS };
    p.z.bits == 0 && exists|s1: S|
        #[trigger] is_ranged_draw(ar, low, high, before, s1, p.x) && is_ranged_draw(
            ar,
            low,
            high,
            s1,
            after,
            p.y,
        )
}

/// `p` lies in the unit disk: its squared length is below one.
pub open spec fn in_unit_disk<A: Arithmetic>(ar: &A, p: Vec3, inside: bool) -> bool {
    exists|squared: Scalar|
        #[trigger] is_dot(ar, p, p, squared) && inside == squared.below(Scalar { bits: ONE_BITS })
}

/// From `before`, `n` candidates for a point of the unit disk were drawn one
/// after the other and all turned down; `after` is the source they leave.
pub open spec fn is_disk_rejections<A: Arithmetic, S: Sampler>(
    ar: &A,
    before: S,
    after: S,
    n: nat,
) -> bool
    decreases n,
{
    if n == 0 {
        after == before
    } else {
        exists|mid: S, p: Vec3|
            is_disk_rejections(ar, before, mid, (n - 1) as nat) && #[trigger] is_disk_candidate(
                ar,
                mid,
                after,
                p,
            ) && in_unit_disk(ar, p, false)
    }
}

/// `p` is a random point of the unit disk drawn by rejection: candidates
/// are refused until one lies in the disk, and `p` is that one; `after` is
/// the source left after it.
///
/// The count of refusals is a machine number. Where `REFUSAL_LIMIT`
/// candidates in a row were refused, the next is taken whatever it is.
pub open spec fn is_disk_draw<A: Arithmetic, S: Sampler>(
    ar: &A,
    before: S,
    after: S,
    p: Vec3,
) -> bool {
    exists|n: nat, mid: S, inside: bool|
        #[trigger] is_disk_rejections(ar, before, mid, n) && n <= REFUSAL_LIMIT
            && is_disk_candidate(ar, mid, after, p) && #[trigger] in_unit_disk(ar, p, inside) && (
        inside || n == REFUSAL_LIMIT)
}

impl Vec3 {
    /// The vector with every sign bit flipped.
    pub open spec fn reversed(self) -> Vec3 {
        Vec3 { x: self.x.opposite(), y: self.y.opposite(), z: self.z.opposite() }
    }

    /// Every component is a number of absolute value below 1e-8.
    pub open spec fn negligible(self) -> bool {
        let s = Scalar { bits: NEAR_ZERO_BITS };
        self.x.magnitude_only().below(s) && self.y.magnitude_only().below(s)
            && self.z.magnitude_only().below(s)
    }

    /// The vector of three positive zeros.
    pub open spec fn zero_vector() -> Vec3 {
        Vec3 { x: Scalar { bits: 0 }, y: Scalar { bits: 0 }, z: Scalar { bits: 0 } }
    }

    /// The vector of three positive zeros.
    pub fn zero() -> (r: Vec3)
        ensures
            r == Vec3::zero_vector(),
    {
        Vec3 { x: Scalar::zero(), y: Scalar::zero(), z: Scalar::zero() }
    }

    pub fn new(x: Scalar, y: Scalar, z: Scalar) -> (r: Vec3)
        ensures
            r == (Vec3 { x, y, z }),
    {
        Vec3 { x, y, z }
    }

    pub fn x(&self) -> (r: Scalar)
        ensures
            r == self.x,
    {
        self.x
    }

    pub fn y(&self) -> (r: Scalar)
        ensures
            r == self.y,
    {
        self.y
    }

    pub fn z(&self) -> (r: Scalar)
        ensures
            r == self.z,
    {
        self.z
    }

    pub fn length<A: Arithmetic>(&self, ar: &A) -> (r: Scalar)
        ensures
            is_length(ar, *self, r),
    {
        let squared = self.length_squared(ar);
        ar.square_root(squared)
    }

    pub fn length_squared<A: Arithmetic>(&self, ar: &A) -> (r: Scalar)
        ensures
            is_dot(ar, *self, *self, r),
    {
        self.dot(ar, self)
    }

    pub fn cross<A: Arithmetic>(&self, ar: &A, other: Vec3) -> (r: Vec3)
        ensures
            is_cross(ar, *self, other, r),
    {
        let x = product_difference(ar, self.y, other.z, self.z, other.y);
        let y = product_difference(ar, self.z, other.x, self.x, other.z);
        let z = product_difference(ar, self.x, other.y, self.y, other.x);
        Vec3 { x, y, z }
    }

    /// The vector divided by its length. Of a vector of length zero the
    /// components are whatever the division by zero gives.
    pub fn unit_vector<A: Arithmetic>(&self, ar: &A) -> (r: Vec3)
        ensures
            is_unit_vector(ar, *self, r),
    {
        let length = self.length(ar);
        self.div(ar, length)
    }

    pub fn dot<A: Arithmetic>(&self, ar: &A, other: &Vec3) -> (r: Scalar)
        ensures
            is_dot(ar, *self, *other, r),
    {
        let px = ar.product(self.x, other.x);
        let py = ar.product(self.y, other.y);
        let pz = ar.product(self.z, other.z);
        let s = ar.sum(px, py);
        ar.sum(s, pz)
    }

    /// Whether the vector is close to zero in every dimension.
    pub fn near_zero(&self) -> (r: bool)
        ensures
            r == self.negligible(),
    {
        let s = Scalar::from_bits(NEAR_ZERO_BITS);
        self.x.abs().lt(s) && self.y.abs().lt(s) && self.z.abs().lt(s)
    }

    /// `-self`.
    pub fn neg(self) -> (r: Vec3)
        ensures
            r == self.reversed(),
    {
        Vec3 { x: self.x.negated(), y: self.y.negated(), z: self.z.negated() }
    }

    /// `self + other`.
    pub fn add<A: Arithmetic>(self, ar: &A, other: Vec3) -> (r: Vec3)
        ensures
            is_plus(ar, self, other, r),
    {
        Vec3 {
            x: ar.sum(self.x, other.x),
            y: ar.sum(self.y, other.y),
            z: ar.sum(self.z, other.z),
        }
    }

    /// `self - other`.
    pub fn sub<A: Arithmetic>(self, ar: &A, other: Vec3) -> (r: Vec3)
        ensures
            is_minus(ar, self, other, r),
    {
        Vec3 {
            x: ar.difference(self.x, other.x),
            y: ar.difference(self.y, other.y),
            z: ar.difference(self.z, other.z),
        }
    }

    /// `self * other`, component by component.
    pub fn mul<A: Arithmetic>(self, ar: &A, other: Vec3) -> (r: Vec3)
        ensures
            is_times(ar, self, other, r),
    {
        Vec3 {
            x: ar.product(self.x, other.x),
            y: ar.product(self.y, other.y),
            z: ar.product(self.z, other.z),
        }
    }

    /// `k * self`.
    pub fn scale<A: Arithmetic>(self, ar: &A, k: Scalar) -> (r: Vec3)
        ensures
            is_scaled(ar, k, self, r),
    {
        Vec3 { x: ar.product(k, self.x), y: ar.product(k, self.y), z: ar.product(k, self.z) }
    }

    /// `self / k`, computed as `(1 / k) * self`.
    pub fn div<A: Arithmetic>(self, ar: &A, k: Scalar) -> (r: Vec3)
        ensures
            is_divided(ar, self, k, r),
    {
        let inverse = ar.quotient(Scalar::one(), k);
        self.scale(ar, inverse)
    }

    /// `self += other`.
    pub fn add_assign<A: Arithmetic>(&mut self, ar: &A, other: Vec3)
        ensures
            is_plus(ar, *old(self), other, *final(self)),
    {
        self.x = ar.sum(self.x, other.x);
        self.y = ar.sum(self.y, other.y);
        self.z = ar.sum(self.z, other.z);
    }

    /// `self *= k`.
    pub fn mul_assign<A: Arithmetic>(&mut self, ar: &A, k: Scalar)
        ensures
            is_scaled_right(ar, *old(self), k, *final(self)),
    {
        self.x = ar.product(self.x, k);
        self.y = ar.product(self.y, k);
        self.z = ar.product(self.z, k);
    }

    /// `self /= k`, computed as `self *= 1 / k`.
    pub fn div_assign<A: Arithmetic>(&mut self, ar: &A, k: Scalar)
        ensures
            exists|inverse: Scalar|
                is_quotient(ar, Scalar { bits: ONE_BITS }, k, inverse) && #[trigger] is_scaled_right(
                    ar,
                    *old(self),
                    inverse,
                    *final(self),
                ),
    {
        let inverse = ar.quotient(Scalar::one(), k);
        self.mul_assign(ar, inverse);
    }
}

impl Default for Vec3 {
    fn default() -> (r: Vec3)
        ensures
            r == Vec3::zero_vector(),
    {
        Vec3::zero()
    }
}

/// `a * b - c * d`.
fn product_difference<A: Arithmetic>(ar: &A, a: Scalar, b: Scalar, c: Scalar, d: Scalar) -> (r:
    Scalar)
    ensures
        is_product_difference(ar, a, b, c, d, r),
{
    let p = ar.product(a, b);
    let q = ar.product(c, d);
    ar.difference(p, q)
}

/// Whether a candidate of this squared length lies in the unit ball and is
/// long enough to be divided by its length.
pub fn accepts_direction(squared: Scalar) -> (r: bool)
    ensures
        r == in_unit_ball(squared),
{
    Scalar::from_bits(TINY_BITS).lt(squared) && squared.le(Scalar::one())
}

/// A vector of three draws from `[0, 1)`.
pub fn random<S: Sampler>(s: &mut S) -> (r: Vec3)
    ensures
        is_random_vector(*old(s), *final(s), r),
{
    let x = random_double(s);
    let ghost s1 = *s;
    let y = random_double(s);
    let ghost s2 = *s;
    let z = random_double(s);
    let r = Vec3 { x, y, z };
    assert(is_unit_draw(*old(s), s1, r.x) && is_unit_draw(s1, s2, r.y));
    r
}

/// A vector of three draws from `[min, max)`.
pub fn random_in_range<A: Arithmetic, S: Sampler>(
    ar: &A,
    s: &mut S,
    min: Scalar,
    max: Scalar,
) -> (r: Vec3)
    ensures
        is_ranged_vector(ar, min, max, *old(s), *final(s), r),
{
    let x = random_double_range(ar, s, min, max);
    let ghost s1 = *s;
    let y = random_double_range(ar, s, min, max);
    let ghost s2 = *s;
    let z = random_double_range(ar, s, min, max);
    let r = Vec3 { x, y, z };
    assert(is_ranged_draw(ar, min, max, *old(s), s1, r.x) && is_ranged_draw(
        ar,
        min,
        max,
        s1,
        s2,
        r.y,
    ));
    r
}

/// A random direction of length one, by rejection: candidates are drawn
/// from the cube `[-1, 1)^3` until one lies in the unit ball and is not too
/// short to divide, and that one is divided by its length.
///
/// A fair source yields a direction after two candidates on average. The
/// count of refused candidates is a `u64`; should it run out, the next
/// candidate is taken as it is.
pub fn random_unit_vector<A: Arithmetic, S: Sampler>(ar: &A, s: &mut S) -> (r: Vec3)
    ensures
        is_direction_draw(ar, *old(s), *final(s), r),
{
    let mut left: u64 = REFUSAL_LIMIT;
    let ghost start = *s;
    loop
        invariant
            start == *old(s),
            is_rejections(ar, start, *s, (REFUSAL_LIMIT - left) as nat),
        decreases left,
    {
        let ghost mid = *s;
        let p = random_in_range(ar, s, Scalar::from_bits(MINUS_ONE_BITS), Scalar::one());
        let squared = p.length_squared(ar);
        assert(is_cube_candidate(ar, mid, *s, p));
        if accepts_direction(squared) || left == 0 {
            let root = ar.square_root(squared);
            let u = p.div(ar, root);
            assert(is_normalized(ar, p, squared, u));
            assert(is_taken_direction(ar, mid, *s, left == 0, u));
            return u;
        }
        left = left - 1;
    }
}

/// The direction itself where it makes an acute angle with the normal, its
/// reverse otherwise; `cosine` is their dot product.
pub fn toward(direction: Vec3, cosine: Scalar) -> (r: Vec3)
    ensures
        r == if (Scalar { bits: 0 }).below(cosine) {
            direction
        } else {
            direction.reversed()
        },
{
    if cosine.gt(Scalar::zero()) {
        direction
    } else {
        direction.neg()
    }
}

/// A random direction in the hemisphere around `normal`: a random
/// direction, reversed unless its dot product with the normal is positive.
pub fn random_on_hemisphere<A: Arithmetic, S: Sampler>(ar: &A, s: &mut S, normal: Vec3) -> (r: Vec3)
    ensures
        is_hemisphere_draw(ar, normal, *old(s), *final(s), r),
{
    let on_unit_sphere = random_unit_vector(ar, s);
    let cosine = on_unit_sphere.dot(ar, &normal);
    toward(on_unit_sphere, cosine)
}

/// A random point of the unit disk in the plane `z = 0`, by rejection:
/// `x` and `y` are drawn from `[-1, 1)` until the squared length is below
/// one.
///
/// The count of refused candidates is a `u64`; should it run out, the next
/// candidate is taken as it is.
pub fn random_in_unit_disk<A: Arithmetic, S: Sampler>(ar: &A, s: &mut S) -> (r: Vec3)
    ensures
        is_disk_draw(ar, *old(s), *final(s), r),
{
    let mut left: u64 = REFUSAL_LIMIT;
    let ghost start = *s;
    loop
        invariant
            start == *old(s),
            is_disk_rejections(ar, start, *s, (REFUSAL_LIMIT - left) as nat),
        decreases left,
    {
        let ghost mid = *s;
        let x = random_double_range(ar, s, Scalar::from_bits(MINUS_ONE_BITS), Scalar::one());
        let ghost s1 = *s;
        let y = random_double_range(ar, s, Scalar::from_bits(MINUS_ONE_BITS), Scalar::one());
        let p = Vec3 { x, y, z: Scalar::zero() };
        assert(is_ranged_draw(
            ar,
            Scalar { bits: MINUS_ONE_BITS },
            Scalar { bits: ONE_BITS },
            mid,
            s1,
            p.x,
        ));
        let squared = p.length_squared(ar);
        let inside = squared.lt(Scalar::one());
        assert(is_disk_candidate(ar, mid, *s, p));
        assert(in_unit_disk(ar, p, inside));
        if inside || left == 0 {
            return p;
        }
        left = left - 1;
    }
}

/// The direction `v` mirrored at a surface with normal `n`.
pub fn reflect<A: Arithmetic>(ar: &A, v: Vec3, n: Vec3) -> (r: Vec3)
    ensures
        is_reflection(ar, v, n, r),
{
    let d = v.dot(ar, &n);
    let k = ar.product(Scalar::from_bits(TWO_BITS), d);
    let w = n.scale(ar, k);
    v.sub(ar, w)
}

/// The unit direction `uv` bent at a surface with normal `n`, for the given
/// ratio of refractive indices.
pub fn refract<A: Arithmetic>(ar: &A, uv: Vec3, n: Vec3, etai_over_etat: Scalar) -> (r: Vec3)
    ensures
        is_refraction(ar, uv, n, etai_over_etat, r),
{
    let d = uv.dot(ar, &n.neg());
    let cos_theta = d.min(Scalar::one());
    assert(is_cosine(ar, uv, n, cos_theta));
    let w = n.scale(ar, cos_theta);
    let s = uv.add(ar, w);
    let r_out_perp = s.scale(ar, etai_over_etat);
    assert(is_refraction_across(ar, uv, n, etai_over_etat, r_out_perp));
    let squared = r_out_perp.length_squared(ar);
    let one_minus = ar.difference(Scalar::one(), squared);
    let root = ar.square_root(one_minus.abs());
    let r_out_parallel = n.scale(ar, root.negated());
    assert(is_refraction_along(ar, r_out_perp, n, r_out_parallel));
    r_out_perp.add(ar, r_out_parallel)
}

} // verus!
