//! Materials: what becomes of a ray where it meets a surface.
//!
//! A material either scatters the ray, and says by how much each colour
//! channel is attenuated, or absorbs it.
use crate::modules::arithmetic::{
    is_difference, is_product, is_quotient, is_square_root, is_sum, Arithmetic,
};
use crate::modules::color::Color;
use crate::modules::hittable::HitRecord;
use crate::modules::ray::Ray;
use crate::modules::sampler::Sampler;
use crate::modules::scalar::{lemma_one, Scalar, ONE_BITS};
use crate::modules::utils::{is_unit_draw, random_double};
use crate::modules::vec3::{
    is_cosine, is_direction_draw, is_dot, is_plus, is_reflection, is_refraction, is_scaled,
    is_unit_vector, random_unit_vector, reflect, refract, Vec3,
};
use vstd::arithmetic::power2::pow2;
use vstd::prelude::*;

verus! {

/// A scattered ray and the factor by which each colour channel of the light
/// it carries is multiplied.
#[derive(Clone, Copy, Debug, PartialEq, Eq, Structural)]
pub struct Scatter {
    pub attenuation: Color,
    pub scattered: Ray,
}

/// A diffuse surface.
#[derive(Clone, Copy, Debug, PartialEq, Eq, Structural)]
pub struct Lambertian {
    albedo: Color,
}

/// A mirror, blurred by `fuzz`: the radius, between zero and one, of the
/// sphere from which the reflected direction is perturbed.
#[derive(Clone, Copy, Debug, PartialEq, Eq, Structural)]
pub struct Metal {
    albedo: Color,
    fuzz: Scalar,
}

/// Glass: a surface that refracts. The index is that of the material over
/// that of the medium around it.
#[derive(Clone, Copy, Debug, PartialEq, Eq, Structural)]
pub struct Dielectric {
    refraction_index: Scalar,
}

/// The materials a surface can have.
#[derive(Clone, Copy, Debug, PartialEq, Eq, Structural)]
pub enum Material {
    Lambertian(Lambertian),
    Metal(Metal),
    Dielectric(Dielectric),
}

/// No attenuation: one in every channel.
pub open spec fn white() -> Color {
    Vec3 { x: Scalar { bits: ONE_BITS }, y: Scalar { bits: ONE_BITS }, z: Scalar { bits: ONE_BITS } }
}

/// `dir` is the direction in which a diffuse surface with this normal
/// scatters: the normal plus a random direction, or the bare normal where
/// that sum is close to zero.
pub open spec fn is_diffuse_direction<A: Arithmetic, S: Sampler>(
    ar: &A,
    normal: Vec3,
    before: S,
    after: S,
    dir: Vec3,
) -> bool {
    exists|u: Vec3, sum: Vec3|
        #[trigger] is_direction_draw(ar, before, after, u) && #[trigger] is_plus(ar, normal, u, sum)
            && dir == if sum.negligible() {
            normal
        } else {
            sum
        }
}

/// `m` is the mirror direction of `incoming` at a surface with this normal:
/// the reflection, divided by its length.
pub open spec fn is_mirror<A: Arithmetic>(ar: &A, incoming: Vec3, normal: Vec3, m: Vec3) -> bool {
    exists|reflected: Vec3|
        #[trigger] is_reflection(ar, incoming, normal, reflected) && is_unit_vector(
            ar,
            reflected,
            m,
        )
}

/// `dir` is the mirror direction `m` perturbed by `fuzz` times a random
/// direction.
pub open spec fn is_fuzzed<A: Arithmetic, S: Sampler>(
    ar: &A,
    m: Vec3,
    fuzz: Scalar,
    before: S,
    after: S,
    dir: Vec3,
) -> bool {
    exists|u: Vec3, w: Vec3|
        #[trigger] is_direction_draw(ar, before, after, u) && #[trigger] is_scaled(ar, fuzz, u, w)
            && is_plus(ar, m, w, dir)
}

/// `r` is the fifth power of `x`, by squaring twice and one more product.
pub open spec fn is_fifth_power<A: Arithmetic>(ar: &A, x: Scalar, r: Scalar) -> bool {
    exists|x2: Scalar, x4: Scalar|
        is_product(ar, x, x, x2) && is_product(ar, x2, x2, x4) && is_product(ar, x, x4, r)
}

/// `r0` is the reflectance at normal incidence for this ratio of indices:
/// `((1 - n) / (1 + n))^2`.
pub open spec fn is_base_reflectance<A: Arithmetic>(ar: &A, ref_idx: Scalar, r0: Scalar) -> bool {
    let one = Scalar { bits: ONE_BITS };
    exists|a: Scalar, b: Scalar, q: Scalar|
        is_difference(ar, one, ref_idx, a) && is_sum(ar, one, ref_idx, b) && is_quotient(
            ar,
            a,
            b,
            q,
        ) && is_product(ar, q, q, r0)
}

/// `r` is Schlick's approximation of the reflectance of glass:
/// `r0 + (1 - r0) * (1 - cosine)^5`.
pub open spec fn is_reflectance<A: Arithmetic>(
    ar: &A,
    cosine: Scalar,
    ref_idx: Scalar,
    r: Scalar,
) -> bool {
    let one = Scalar { bits: ONE_BITS };
    exists|r0: Scalar, c: Scalar, x: Scalar, x5: Scalar, t: Scalar|
        is_base_reflectance(ar, ref_idx, r0) && is_difference(ar, one, r0, c) && is_difference(
            ar,
            one,
            cosine,
            x,
        ) && is_fifth_power(ar, x, x5) && is_product(ar, c, x5, t) && is_sum(ar, r0, t, r)
}

/// `ratio` is the ratio of indices a ray meets: one over the index where it
/// enters from outside, the index where it leaves.
pub open spec fn is_index_ratio<A: Arithmetic>(
    ar: &A,
    index: Scalar,
    front_face: bool,
    ratio: Scalar,
) -> bool {
    if front_face {
        is_quotient(ar, Scalar { bits: ONE_BITS }, index, ratio)
    } else {
        ratio == index
    }
}

/// `sine` is the sine that goes with a cosine: `sqrt(1 - cosine^2)`.
pub open spec fn is_sine<A: Arithmetic>(ar: &A, cosine: Scalar, sine: Scalar) -> bool {
    exists|c2: Scalar, d: Scalar|
        is_product(ar, cosine, cosine, c2) && is_difference(ar, Scalar { bits: ONE_BITS }, c2, d)
            && is_square_root(ar, d, sine)
}

/// Whether Snell's law has no solution: `ratio * sine` is above one, and all
/// the light is reflected.
pub open spec fn is_total_reflection<A: Arithmetic>(
    ar: &A,
    ratio: Scalar,
    sine: Scalar,
    total: bool,
) -> bool {
    exists|rs: Scalar|
        is_product(ar, ratio, sine, rs) && total == (Scalar { bits: ONE_BITS }).below(rs)
}

/// `reflects` says whether glass reflects a ray that Snell's law lets
/// through: it does where the reflectance for the cosine and the ratio of
/// indices is above the number of one draw.
pub open spec fn is_reflected_by_draw<A: Arithmetic, S: Sampler>(
    ar: &A,
    cosine: Scalar,
    ratio: Scalar,
    before: S,
    after: S,
    reflects: bool,
) -> bool {
    exists|reflectance: Scalar, draw: Scalar|
        #[trigger] is_reflectance(ar, cosine, ratio, reflectance) && #[trigger] is_unit_draw(
            before,
            after,
            draw,
        ) && reflects == draw.below(reflectance)
}

/// `dir` is the direction in which glass scatters the unit direction `ud`:
/// the reflection where Snell's law has no solution, for which nothing is
/// drawn, or where the reflectance is above the number of one draw; the
/// refraction otherwise.
pub open spec fn is_glass_direction<A: Arithmetic, S: Sampler>(
    ar: &A,
    ud: Vec3,
    normal: Vec3,
    ratio: Scalar,
    before: S,
    after: S,
    dir: Vec3,
) -> bool {
    exists|cosine: Scalar, sine: Scalar, total: bool|
        #[trigger] is_cosine(ar, ud, normal, cosine) && #[trigger] is_sine(ar, cosine, sine)
            && #[trigger] is_total_reflection(ar, ratio, sine, total) && if total {
            after == before && is_reflection(ar, ud, normal, dir)
        } else {
            exists|reflects: bool|
                #[trigger] is_reflected_by_draw(ar, cosine, ratio, before, after, reflects) && if reflects {
                    is_reflection(ar, ud, normal, dir)
                } else {
                    is_refraction(ar, ud, normal, ratio, dir)
                }
        }
}

/// `res` is what a diffuse surface of this albedo does with a ray: it
/// scatters from the point of the hit, and attenuates by the albedo.
pub open spec fn is_diffuse_scatter<A: Arithmetic, S: Sampler>(
    ar: &A,
    albedo: Color,
    rec: HitRecord,
    before: S,
    after: S,
    res: Option<Scatter>,
) -> bool {
    res matches Some(sc) && sc.attenuation == albedo && sc.scattered.origin == rec.p
        && is_diffuse_direction(ar, rec.normal, before, after, sc.scattered.direction)
}

/// `res` is what a metal does with a ray: it scatters from the point of the
/// hit in the perturbed mirror direction, with its albedo, where that
/// direction leaves the surface, and absorbs the ray otherwise.
pub open spec fn is_metal_scatter<A: Arithmetic, S: Sampler>(
    ar: &A,
    albedo: Color,
    fuzz: Scalar,
    r_in: Ray,
    rec: HitRecord,
    before: S,
    after: S,
    res: Option<Scatter>,
) -> bool {
    exists|m: Vec3, dir: Vec3, cosine: Scalar|
        #[trigger] is_mirror(ar, r_in.direction, rec.normal, m) && #[trigger] is_fuzzed(
            ar,
            m,
            fuzz,
            before,
            after,
            dir,
        ) && #[trigger] is_dot(ar, dir, rec.normal, cosine) && res == if (Scalar {
            bits: 0,
        }).below(cosine) {
            Some(Scatter { attenuation: albedo, scattered: Ray { origin: rec.p, direction: dir } })
        } else {
            None
        }
}

/// `res` is what glass of this index does with a ray: it scatters from the
/// point of the hit, reflected or refracted, and absorbs nothing.
pub open spec fn is_glass_scatter<A: Arithmetic, S: Sampler>(
    ar: &A,
    index: Scalar,
    r_in: Ray,
    rec: HitRecord,
    before: S,
    after: S,
    res: Option<Scatter>,
) -> bool {
    res matches Some(sc) && sc.attenuation == white() && sc.scattered.origin == rec.p
        && exists|ratio: Scalar, ud: Vec3|
        #[trigger] is_index_ratio(ar, index, rec.front_face, ratio) && #[trigger] is_unit_vector(
            ar,
            r_in.direction,
            ud,
        ) && is_glass_direction(ar, ud, rec.normal, ratio, before, after, sc.scattered.direction)
}

/// `res` is what the material does with the ray `r_in` that hit it as
/// `rec` records, with the random bits that lead from the source `before`
/// to the source `after`.
pub open spec fn is_scattering<A: Arithmetic, S: Sampler>(
    ar: &A,
    material: Material,
    r_in: Ray,
    rec: HitRecord,
    before: S,
    after: S,
    res: Option<Scatter>,
) -> bool {
    match material {
        Material::Lambertian(m) => is_diffuse_scatter(ar, m.albedo(), rec, before, after, res),
        Material::Metal(m) => is_metal_scatter(
            ar,
            m.albedo(),
            m.fuzz(),
            r_in,
            rec,
            before,
            after,
            res,
        ),
        Material::Dielectric(m) => is_glass_scatter(
            ar,
            m.refraction_index(),
            r_in,
            rec,
            before,
            after,
            res,
        ),
    }
}

impl Lambertian {
    /// The fraction of light, by channel, that the surface scatters.
    pub closed spec fn albedo(self) -> Color {
        self.albedo
    }

    pub fn new(albedo: Color) -> (r: Lambertian)
        ensures
            r.albedo() == albedo,
    {
        Lambertian { albedo }
    }

    /// The direction of the scattered ray, given the normal and its sum
    /// with a random direction: the sum, or the normal where the sum is
    /// close to zero in every dimension.
    pub fn direction(normal: Vec3, sum: Vec3) -> (dir: Vec3)
        ensures
            dir == if sum.negligible() {
                normal
            } else {
                sum
            },
    {
        if sum.near_zero() {
            normal
        } else {
            sum
        }
    }

    /// A diffuse surface always scatters, from the point of the hit, and
    /// attenuates by its albedo.
    pub fn scatter<A: Arithmetic, S: Sampler>(
        &self,
        ar: &A,
        s: &mut S,
        r_in: &Ray,
        rec: &HitRecord,
    ) -> (res: Option<Scatter>)
        ensures
            is_diffuse_scatter(ar, self.albedo(), *rec, *old(s), *final(s), res),
    {
        let u = random_unit_vector(ar, s);
        let sum = rec.normal.add(ar, u);
        let dir = Lambertian::direction(rec.normal, sum);
        assert(is_diffuse_direction(ar, rec.normal, *old(s), *s, dir));
        Some(Scatter { attenuation: self.albedo, scattered: Ray::new(rec.p, dir) })
    }
}

impl Metal {
    /// The fraction of light, by channel, that the surface reflects.
    pub closed spec fn albedo(self) -> Color {
        self.albedo
    }

    /// The radius of the perturbation.
    pub closed spec fn fuzz(self) -> Scalar {
        self.fuzz
    }

    /// A metal of this colour. The fuzz is held to `[0, 1]`: above one it
    /// is one, below zero it is zero, and a NaN counts as one.
    pub fn new(albedo: Color, fuzz: Scalar) -> (r: Metal)
        ensures
            r.albedo() == albedo,
            r.fuzz() == fuzz.lesser(Scalar { bits: ONE_BITS }).greater(Scalar { bits: 0 }),
            !r.fuzz().nan(),
            0 <= r.fuzz().scaled() <= pow2(1074),
    {
        proof {
            lemma_one();
        }
        Metal { albedo, fuzz: fuzz.min(Scalar::one()).max(Scalar::zero()) }
    }

    /// Whether a direction leaves the surface: its dot product with the
    /// normal is above zero.
    pub fn leaves(cosine: Scalar) -> (r: bool)
        ensures
            r == (Scalar { bits: 0 }).below(cosine),
    {
        cosine.gt(Scalar::zero())
    }

    /// A metal reflects the ray about the normal and perturbs the unit
    /// reflection by `fuzz` times a random direction. The ray is scattered
    /// where the perturbed direction still leaves the surface, and absorbed
    /// otherwise.
    pub fn scatter<A: Arithmetic, S: Sampler>(
        &self,
        ar: &A,
        s: &mut S,
        r_in: &Ray,
        rec: &HitRecord,
    ) -> (res: Option<Scatter>)
        ensures
            is_metal_scatter(ar, self.albedo(), self.fuzz(), *r_in, *rec, *old(s), *final(s), res),
    {
        let reflected = reflect(ar, r_in.direction(), rec.normal);
        let m = reflected.unit_vector(ar);
        assert(is_mirror(ar, r_in.direction, rec.normal, m));
        let u = random_unit_vector(ar, s);
        let w = u.scale(ar, self.fuzz);
        let dir = m.add(ar, w);
        assert(is_fuzzed(ar, m, self.fuzz(), *old(s), *s, dir));
        let cosine = dir.dot(ar, &rec.normal);
        if Metal::leaves(cosine) {
            Some(Scatter { attenuation: self.albedo, scattered: Ray::new(rec.p, dir) })
        } else {
            None
        }
    }
}

impl Dielectric {
    /// The refractive index of the material over that of its surroundings.
    pub closed spec fn refraction_index(self) -> Scalar {
        self.refraction_index
    }

    pub fn new(refraction_index: Scalar) -> (r: Dielectric)
        ensures
            r.refraction_index() == refraction_index,
    {
        Dielectric { refraction_index }
    }

    /// Schlick's approximation of the reflectance, which varies with the
    /// angle of incidence.
    pub fn reflectance<A: Arithmetic>(ar: &A, cosine: Scalar, ref_idx: Scalar) -> (r: Scalar)
        ensures
            is_reflectance(ar, cosine, ref_idx, r),
    {
        let one = Scalar::one();
        let a = ar.difference(one, ref_idx);
        let b = ar.sum(one, ref_idx);
        let q = ar.quotient(a, b);
        let r0 = ar.product(q, q);
        assert(is_base_reflectance(ar, ref_idx, r0));
        let c = ar.difference(one, r0);
        let x = ar.difference(one, cosine);
        let x2 = ar.product(x, x);
        let x4 = ar.product(x2, x2);
        let x5 = ar.product(x, x4);
        assert(is_fifth_power(ar, x, x5));
        let t = ar.product(c, x5);
        ar.sum(r0, t)
    }

    /// Whether the ray is reflected rather than refracted: always where
    /// Snell's law has no solution, else where the reflectance is above the
    /// draw.
    pub fn reflects(cannot_refract: bool, reflectance: Scalar, draw: Scalar) -> (r: bool)
        ensures
            r == (cannot_refract || draw.below(reflectance)),
    {
        cannot_refract || reflectance.gt(draw)
    }

    /// Glass always scatters, from the point of the hit, and absorbs
    /// nothing: the attenuation is one in every channel.
    pub fn scatter<A: Arithmetic, S: Sampler>(
        &self,
        ar: &A,
        s: &mut S,
        r_in: &Ray,
        rec: &HitRecord,
    ) -> (res: Option<Scatter>)
        ensures
            is_glass_scatter(ar, self.refraction_index(), *r_in, *rec, *old(s), *final(s), res),
    {
        let one = Scalar::one();
        let attenuation = Vec3::new(one, one, one);
        let ratio = if rec.front_face {
            ar.quotient(one, self.refraction_index)
        } else {
            self.refraction_index
        };
        assert(is_index_ratio(ar, self.refraction_index(), rec.front_face, ratio));
        let ud = r_in.direction().unit_vector(ar);
        let d = ud.dot(ar, &rec.normal.neg());
        let cos_theta = d.min(one);
        assert(is_cosine(ar, ud, rec.normal, cos_theta));
        let c2 = ar.product(cos_theta, cos_theta);
        let one_minus = ar.difference(one, c2);
        let sin_theta = ar.square_root(one_minus);
        assert(is_sine(ar, cos_theta, sin_theta));
        let rs = ar.product(ratio, sin_theta);
        let cannot_refract = rs.gt(one);
        assert(is_total_reflection(ar, ratio, sin_theta, cannot_refract));
        let direction = if cannot_refract {
            reflect(ar, ud, rec.normal)
        } else {
            let reflectance = Dielectric::reflectance(ar, cos_theta, ratio);
            let draw = random_double(s);
            let reflects = Dielectric::reflects(cannot_refract, reflectance, draw);
            assert(is_reflected_by_draw(ar, cos_theta, ratio, *old(s), *s, reflects));
            if reflects {
                reflect(ar, ud, rec.normal)
            } else {
                refract(ar, ud, rec.normal, ratio)
            }
        };
        assert(is_glass_direction(ar, ud, rec.normal, ratio, *old(s), *s, direction));
        Some(Scatter { attenuation, scattered: Ray::new(rec.p, direction) })
    }
}

impl Material {
    /// What the material does with a ray that hit it: `None` where the ray
    /// is absorbed, else the scattered ray and its attenuation.
    pub fn scatter<A: Arithmetic, S: Sampler>(
        &self,
        ar: &A,
        s: &mut S,
        r_in: &Ray,
        rec: &HitRecord,
    ) -> (res: Option<Scatter>)
        ensures
            is_scattering(ar, *self, *r_in, *rec, *old(s), *final(s), res),
            res matches Some(sc) ==> sc.scattered.origin == rec.p,
            self is Lambertian || self is Dielectric ==> res is Some,
    {
        match self {
            Material::Lambertian(m) => m.scatter(ar, s, r_in, rec),
            Material::Metal(m) => m.scatter(ar, s, r_in, rec),
            Material::Dielectric(m) => m.scatter(ar, s, r_in, rec),
        }
    }
}

} // verus!
