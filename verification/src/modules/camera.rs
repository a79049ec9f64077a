//! The camera: from a configuration to rays, and from rays to pixels.
use crate::modules::arithmetic::{
    is_difference, is_product, is_quotient, is_sum, is_tangent, Arithmetic,
};
use crate::modules::color::{is_channel, write_color, Color, Rgb};
use crate::modules::material::{is_scattering, white, Scatter};
use crate::modules::conversion::is_integer;
use crate::modules::hittable::{is_nearest, HitRecord, Hittable};
use crate::modules::hittable_list::HittableList;
use crate::modules::interval::Interval;
use crate::modules::ray::Ray;
use crate::modules::sampler::Sampler;
use crate::modules::scalar::{lemma_one, Scalar, INFINITY_BITS, ONE_BITS};
use crate::modules::utils::{is_to_radians, is_unit_draw, random_double, to_radians};
use crate::modules::vec3::{
    is_cross, is_disk_draw, is_divided, is_minus, is_plus, is_scaled, is_times, is_unit_vector,
    random_in_unit_disk, Point3, Vec3, TWO_BITS,
};
use std::sync::Arc;
use vstd::arithmetic::div_mod::lemma_fundamental_div_mod_converse;
use vstd::arithmetic::power2::lemma_pow2_pos;
use vstd::prelude::*;

verus! {

/// The pattern of 0.001: the parameter from which on a hit counts. A ray
/// that leaves a surface starts, after rounding, a hair off that surface;
/// the bound keeps it from hitting the surface it has just left.
pub const SHADOW_BIAS_BITS: u64 = 0x3F50_624D_D2F1_A9FC;

/// The pattern of 0.5.
pub const HALF_BITS: u64 = 0x3FE0_0000_0000_0000;

/// The pattern of -0.5.
pub const MINUS_HALF_BITS: u64 = 0xBFE0_0000_0000_0000;

/// The pattern of 0.7.
pub const SKY_GREEN_BITS: u64 = 0x3FE6_6666_6666_6666;

/// The pattern of 10.0.
pub const TEN_BITS: u64 = 0x4024_0000_0000_0000;

/// The pattern of 90.0.
pub const RIGHT_ANGLE_BITS: u64 = 0x4056_8000_0000_0000;

/// The pattern of -1.0.
pub const MINUS_ONE_BITS: u64 = 0xBFF0_0000_0000_0000;

/// What is wrong with a camera's configuration.
#[derive(Clone, Copy, Debug, PartialEq, Eq, Structural)]
pub enum ConfigError {
    /// The image is zero pixels wide.
    ZeroWidth,
    /// No sample is taken per pixel.
    ZeroSamples,
    /// The aspect ratio is not a number above zero.
    InvalidAspectRatio,
}

impl ConfigError {
    /// The error in words.
    pub open spec fn message(self) -> Seq<char> {
        match self {
            ConfigError::ZeroWidth => "image width must be at least one pixel"@,
            ConfigError::ZeroSamples => "samples per pixel must be at least one"@,
            ConfigError::InvalidAspectRatio => "aspect ratio must be a number above zero"@,
        }
    }

    /// The error in words.
    pub fn describe(&self) -> (text: &'static str)
        ensures
            text@ == self.message(),
    {
        let text = match self {
            ConfigError::ZeroWidth => "image width must be at least one pixel",
            ConfigError::ZeroSamples => "samples per pixel must be at least one",
            ConfigError::InvalidAspectRatio => "aspect ratio must be a number above zero",
        };
        text
    }
}

/// What a camera derives from its configuration before it renders.
#[derive(Clone, Copy, Debug, PartialEq, Eq, Structural)]
pub struct Frame {
    /// Rendered image height in pixels.
    pub image_height: u32,
    /// One over the number of samples per pixel.
    pub pixel_samples_scale: Scalar,
    /// The camera's position.
    pub center: Point3,
    /// The centre of the pixel in the upper left corner.
    pub pixel00_loc: Point3,
    /// From one pixel to the next on its right.
    pub pixel_delta_u: Vec3,
    /// From one pixel to the next below.
    pub pixel_delta_v: Vec3,
    /// The camera's unit vector to its right.
    pub u: Vec3,
    /// The camera's unit vector upwards.
    pub v: Vec3,
    /// The camera's unit vector against its view.
    pub w: Vec3,
    /// The horizontal radius of the defocus disk.
    pub defocus_disk_u: Vec3,
    /// The vertical radius of the defocus disk.
    pub defocus_disk_v: Vec3,
}

impl Frame {
    /// The frame of a camera that never got ready: no rows, and zero for
    /// every number.
    pub open spec fn unready() -> Frame {
        Frame {
            image_height: 0,
            pixel_samples_scale: Scalar { bits: 0 },
            center: Vec3::zero_vector(),
            pixel00_loc: Vec3::zero_vector(),
            pixel_delta_u: Vec3::zero_vector(),
            pixel_delta_v: Vec3::zero_vector(),
            u: Vec3::zero_vector(),
            v: Vec3::zero_vector(),
            w: Vec3::zero_vector(),
            defocus_disk_u: Vec3::zero_vector(),
            defocus_disk_v: Vec3::zero_vector(),
        }
    }
}

/// A rendered image: its pixels row by row from the top, each row from the
/// left.
#[derive(Debug)]
pub struct Image {
    pub width: u32,
    pub height: u32,
    pub pixels: Vec<Rgb>,
}

pub struct Camera {
    /// Ratio of image width to height.
    pub aspect_ratio: Scalar,
    /// Rendered image width in pixels.
    pub image_width: u32,
    /// Number of random samples per pixel.
    pub samples_per_pixel: u32,
    /// Maximum number of bounces of a ray.
    pub max_depth: u32,
    /// Vertical field of view in degrees.
    pub vfov: Scalar,
    /// The point the camera looks from.
    pub lookfrom: Point3,
    /// The point the camera looks at.
    pub lookat: Point3,
    /// The direction that is up for the camera.
    pub vup: Vec3,
    /// The angle, in degrees, of the cone of rays through each pixel.
    pub defocus_angle: Scalar,
    /// The distance from the camera to the plane in perfect focus.
    pub focus_dist: Scalar,
    /// What the camera last derived from the fields above. It is made anew
    /// whenever the camera gets ready, and nothing outside reads it.
    frame: Frame,
}

/// A camera as the contracts see it: what it is set to, and the frame it
/// last derived.
pub struct CameraView {
    pub aspect_ratio: Scalar,
    pub image_width: u32,
    pub samples_per_pixel: u32,
    pub max_depth: u32,
    pub vfov: Scalar,
    pub lookfrom: Point3,
    pub lookat: Point3,
    pub vup: Vec3,
    pub defocus_angle: Scalar,
    pub focus_dist: Scalar,
    pub frame: Frame,
}

impl View for Camera {
    type V = CameraView;

    closed spec fn view(&self) -> CameraView {
        CameraView {
            aspect_ratio: self.aspect_ratio,
            image_width: self.image_width,
            samples_per_pixel: self.samples_per_pixel,
            max_depth: self.max_depth,
            vfov: self.vfov,
            lookfrom: self.lookfrom,
            lookat: self.lookat,
            vup: self.vup,
            defocus_angle: self.defocus_angle,
            focus_dist: self.focus_dist,
            frame: self.frame,
        }
    }
}

/// `height` is the image height for a width and an aspect ratio: the integer
/// part of `width / aspect_ratio`, and at least one.
pub open spec fn is_image_height<A: Arithmetic>(
    ar: &A,
    width: u32,
    aspect_ratio: Scalar,
    height: u32,
) -> bool {
    exists|wide: Scalar, q: Scalar|
        is_integer(wide, width as int) && is_quotient(ar, wide, aspect_ratio, q)
            && height == floor_at_one(q.truncated())
}

/// The number itself, or one where it is zero.
pub open spec fn floor_at_one(n: int) -> int {
    if n == 0 {
        1
    } else {
        n
    }
}

/// `scale` is one over the number of samples.
pub open spec fn is_sample_scale<A: Arithmetic>(ar: &A, samples: u32, scale: Scalar) -> bool {
    exists|count: Scalar|
        is_integer(count, samples as int) && is_quotient(
            ar,
            Scalar { bits: ONE_BITS },
            count,
            scale,
        )
}

/// `t` is the tangent of an angle given in degrees.
pub open spec fn is_tangent_of_degrees<A: Arithmetic>(ar: &A, degrees: Scalar, t: Scalar) -> bool {
    exists|radians: Scalar| is_to_radians(ar, degrees, radians) && is_tangent(ar, radians, t)
}

/// `vh` is the height of the viewport: `2 * tan(vfov / 2) * focus_dist`,
/// where the field of view is turned into radians before it is halved.
pub open spec fn is_viewport_height<A: Arithmetic>(
    ar: &A,
    vfov: Scalar,
    focus_dist: Scalar,
    vh: Scalar,
) -> bool {
    exists|theta: Scalar, half: Scalar, h: Scalar, hh: Scalar|
        is_to_radians(ar, vfov, theta) && is_quotient(
            ar,
            theta,
            Scalar { bits: TWO_BITS },
            half,
        ) && is_tangent(ar, half, h) && is_product(ar, Scalar { bits: TWO_BITS }, h, hh)
            && is_product(ar, hh, focus_dist, vh)
}

/// `vw` is the width of the viewport: its height times `width / height` in
/// pixels.
pub open spec fn is_viewport_width<A: Arithmetic>(
    ar: &A,
    vh: Scalar,
    width: u32,
    height: u32,
    vw: Scalar,
) -> bool {
    exists|wide: Scalar, high: Scalar, ratio: Scalar|
        is_integer(wide, width as int) && is_integer(high, height as int)
            && is_quotient(ar, wide, high, ratio) && is_product(ar, vh, ratio, vw)
}

/// `w`, `u` and `v` are the camera's basis: `w` is the unit vector from the
/// target to the camera, `u` the unit vector of `vup x w`, and `v` is
/// `w x u`.
pub open spec fn is_basis<A: Arithmetic>(
    ar: &A,
    lookfrom: Point3,
    lookat: Point3,
    vup: Vec3,
    u: Vec3,
    v: Vec3,
    w: Vec3,
) -> bool {
    exists|back: Vec3, right: Vec3|
        is_minus(ar, lookfrom, lookat, back) && is_unit_vector(ar, back, w)
            && is_cross(ar, vup, w, right) && is_unit_vector(ar, right, u) && is_cross(
            ar,
            w,
            u,
            v,
        )
}

/// `delta` is the step from pixel to pixel along a viewport edge: the edge
/// divided by the number of pixels along it.
pub open spec fn is_pixel_delta<A: Arithmetic>(ar: &A, edge: Vec3, pixels: u32, delta: Vec3) -> bool {
    exists|count: Scalar| is_integer(count, pixels as int) && is_divided(ar, edge, count, delta)
}

/// `corner` is the upper left corner of the viewport:
/// `center - focus_dist * w - edge_u / 2 - edge_v / 2`.
pub open spec fn is_upper_left<A: Arithmetic>(
    ar: &A,
    center: Point3,
    focus_dist: Scalar,
    w: Vec3,
    edge_u: Vec3,
    edge_v: Vec3,
    corner: Point3,
) -> bool {
    exists|depth: Vec3, a: Vec3, half_u: Vec3, b: Vec3, half_v: Vec3|
        is_scaled(ar, focus_dist, w, depth) && is_minus(ar, center, depth, a)
            && is_divided(ar, edge_u, Scalar { bits: TWO_BITS }, half_u)
            && is_minus(ar, a, half_u, b) && is_divided(
            ar,
            edge_v,
            Scalar { bits: TWO_BITS },
            half_v,
        ) && is_minus(ar, b, half_v, corner)
}

/// `p` is the centre of the first pixel: the corner plus half a step in
/// each direction.
pub open spec fn is_first_pixel<A: Arithmetic>(
    ar: &A,
    corner: Point3,
    delta_u: Vec3,
    delta_v: Vec3,
    p: Point3,
) -> bool {
    exists|step: Vec3, half: Vec3|
        #[trigger] is_plus(ar, delta_u, delta_v, step) && #[trigger] is_scaled(
            ar,
            Scalar { bits: HALF_BITS },
            step,
            half,
        ) && is_plus(ar, corner, half, p)
}

/// `radius` is the radius of the defocus disk:
/// `focus_dist * tan(defocus_angle / 2)`, the angle in degrees.
pub open spec fn is_defocus_radius<A: Arithmetic>(
    ar: &A,
    focus_dist: Scalar,
    defocus_angle: Scalar,
    radius: Scalar,
) -> bool {
    exists|half: Scalar, t: Scalar|
        is_quotient(ar, defocus_angle, Scalar { bits: TWO_BITS }, half)
            && is_tangent_of_degrees(ar, half, t) && is_product(ar, focus_dist, t, radius)
}

/// `f` is what the camera derives from its configuration.
pub open spec fn is_frame<A: Arithmetic>(ar: &A, cam: CameraView, f: Frame) -> bool {
    &&& is_image_height(ar, cam.image_width, cam.aspect_ratio, f.image_height)
    &&& f.image_height >= 1
    &&& is_sample_scale(ar, cam.samples_per_pixel, f.pixel_samples_scale)
    &&& f.center == cam.lookfrom
    &&& is_basis(ar, cam.lookfrom, cam.lookat, cam.vup, f.u, f.v, f.w)
    &&& exists|vh: Scalar, vw: Scalar, edge_u: Vec3, edge_v: Vec3, corner: Point3|
        is_viewport_height(ar, cam.vfov, cam.focus_dist, vh) && is_viewport_width(
            ar,
            vh,
            cam.image_width,
            f.image_height,
            vw,
        ) && is_scaled(ar, vw, f.u, edge_u) && is_scaled(
            ar,
            vh.opposite(),
            f.v,
            edge_v,
        ) && is_pixel_delta(ar, edge_u, cam.image_width, f.pixel_delta_u) && is_pixel_delta(
            ar,
            edge_v,
            f.image_height,
            f.pixel_delta_v,
        ) && is_upper_left(ar, f.center, cam.focus_dist, f.w, edge_u, edge_v, corner)
            && is_first_pixel(ar, corner, f.pixel_delta_u, f.pixel_delta_v, f.pixel00_loc)
    &&& exists|radius: Scalar|
        is_defocus_radius(ar, cam.focus_dist, cam.defocus_angle, radius) && is_scaled(
            ar,
            radius,
            f.u,
            f.defocus_disk_u,
        ) && is_scaled(ar, radius, f.v, f.defocus_disk_v)
}

/// The sky: white at the horizon's nadir, blue at the zenith.
pub open spec fn sky_blue() -> Color {
    Vec3 {
        x: Scalar { bits: HALF_BITS },
        y: Scalar { bits: SKY_GREEN_BITS },
        z: Scalar { bits: ONE_BITS },
    }
}

/// `a` is how far towards the zenith a unit direction of height `y` looks,
/// from zero to one: `0.5 * (y + 1)`.
pub open spec fn is_elevation<A: Arithmetic>(ar: &A, y: Scalar, a: Scalar) -> bool {
    exists|up: Scalar|
        is_sum(ar, y, Scalar { bits: ONE_BITS }, up) && is_product(
            ar,
            Scalar { bits: HALF_BITS },
            up,
            a,
        )
}

/// `color` is the blend `(1 - a) * white + a * blue`.
pub open spec fn is_gradient<A: Arithmetic>(ar: &A, a: Scalar, color: Color) -> bool {
    exists|rest: Scalar, pale: Color, tint: Color|
        is_difference(ar, Scalar { bits: ONE_BITS }, a, rest) && #[trigger] is_scaled(
            ar,
            rest,
            white(),
            pale,
        ) && #[trigger] is_scaled(ar, a, sky_blue(), tint) && is_plus(ar, pale, tint, color)
}

/// `color` is the sky in the given direction: white straight down, blue
/// straight up, and in between the blend by the height of the unit
/// direction.
pub open spec fn is_sky<A: Arithmetic>(ar: &A, direction: Vec3, color: Color) -> bool {
    exists|ud: Vec3, a: Scalar|
        #[trigger] is_unit_vector(ar, direction, ud) && is_elevation(ar, ud.y, a)
            && #[trigger] is_gradient(ar, a, color)
}

/// `c` is a jitter within a pixel: `-0.5 + u` for the number `u` of one
/// draw, so a number from `-0.5` up to, not including, `0.5`.
pub open spec fn is_jitter<A: Arithmetic, S: Sampler>(ar: &A, before: S, after: S, c: Scalar) -> bool {
    exists|u: Scalar|
        #[trigger] is_unit_draw(before, after, u) && is_sum(
            ar,
            Scalar { bits: MINUS_HALF_BITS },
            u,
            c,
        )
}

/// `offset` is a random point in the square of half a pixel around a
/// pixel's centre: a jitter in `x`, then one in `y`, and zero in `z`.
pub open spec fn is_pixel_sample<A: Arithmetic, S: Sampler>(
    ar: &A,
    before: S,
    after: S,
    offset: Vec3,
) -> bool {
    offset.z.bits == 0 && exists|mid: S|
        #[trigger] is_jitter(ar, before, mid, offset.x) && is_jitter(ar, mid, after, offset.y)
}

/// `step` leads from the first pixel to a sample of pixel `index` along one
/// axis: `(index + jitter) * delta`.
pub open spec fn is_pixel_offset<A: Arithmetic>(
    ar: &A,
    index: u32,
    jitter: Scalar,
    delta: Vec3,
    step: Vec3,
) -> bool {
    exists|whole: Scalar, k: Scalar|
        #[trigger] is_integer(whole, index as int) && is_sum(ar, whole, jitter, k)
            && #[trigger] is_scaled(ar, k, delta, step)
}

/// `point` is the sample of pixel `(i, j)`, column first, at the given
/// offset from its centre:
/// `pixel00 + (i + offset.x) * delta_u + (j + offset.y) * delta_v`.
pub open spec fn is_sample_point<A: Arithmetic>(
    ar: &A,
    f: Frame,
    i: u32,
    j: u32,
    offset: Vec3,
    point: Point3,
) -> bool {
    exists|across: Vec3, a: Vec3, down: Vec3|
        #[trigger] is_pixel_offset(ar, i, offset.x, f.pixel_delta_u, across) && #[trigger] is_plus(
            ar,
            f.pixel00_loc,
            across,
            a,
        ) && #[trigger] is_pixel_offset(ar, j, offset.y, f.pixel_delta_v, down) && is_plus(
            ar,
            a,
            down,
            point,
        )
}

/// `point` is the point of the defocus disk that the disk point `p` picks:
/// `center + p.x * disk_u + p.y * disk_v`.
pub open spec fn is_lens_point<A: Arithmetic>(ar: &A, f: Frame, p: Vec3, point: Point3) -> bool {
    exists|a: Vec3, b: Vec3, c: Vec3|
        #[trigger] is_scaled(ar, p.x, f.defocus_disk_u, a) && #[trigger] is_plus(ar, f.center, a, b)
            && #[trigger] is_scaled(ar, p.y, f.defocus_disk_v, c) && is_plus(ar, b, c, point)
}

/// `point` is a point of the camera's lens: the point that a random point
/// of the unit disk picks on the defocus disk.
pub open spec fn is_lens_sample<A: Arithmetic, S: Sampler>(
    ar: &A,
    f: Frame,
    before: S,
    after: S,
    point: Point3,
) -> bool {
    exists|p: Vec3| #[trigger] is_disk_draw(ar, before, after, p) && is_lens_point(ar, f, p, point)
}

/// `origin` is where a ray of the camera starts: the centre of the camera
/// where the defocus angle is at most zero, for which nothing is drawn; a
/// point of its lens otherwise.
pub open spec fn is_ray_origin<A: Arithmetic, S: Sampler>(
    ar: &A,
    defocus_angle: Scalar,
    f: Frame,
    before: S,
    after: S,
    origin: Point3,
) -> bool {
    if defocus_angle.at_most(Scalar { bits: 0 }) {
        origin == f.center && after == before
    } else {
        is_lens_sample(ar, f, before, after, origin)
    }
}

/// The range in which a hit counts for the light along a ray: from 0.001,
/// exclusive, to infinity.
pub open spec fn visible_range() -> Interval {
    Interval {
        min: Scalar { bits: SHADOW_BIAS_BITS },
        max: Scalar { bits: INFINITY_BITS },
    }
}

/// `color` is the light that arrives along the ray `r` from the world, for
/// a budget of `depth` bounces, with the random bits that lead from the
/// source `before` to the source `after`.
///
/// With no bounce left it is black. Else, where the ray hits nothing, it is
/// the sky; where the material at the nearest hit absorbs the ray, it is
/// black; and where the material scatters the ray, it is the light along
/// the scattered ray for one bounce less, times the attenuation.
pub open spec fn is_light<A: Arithmetic, S: Sampler>(
    ar: &A,
    world: Seq<Arc<Hittable>>,
    r: Ray,
    depth: nat,
    before: S,
    after: S,
    color: Color,
) -> bool
    decreases depth,
{
    if depth == 0 {
        color == Vec3::zero_vector() && after == before
    } else {
        exists|hit: Option<HitRecord>|
            #[trigger] is_nearest(ar, world, r, visible_range(), hit) && match hit {
                None => is_sky(ar, r.direction, color) && after == before,
                Some(rec) => exists|mid: S, sc: Option<Scatter>|
                    #[trigger] is_scattering(ar, *rec.mat, r, rec, before, mid, sc) && match sc {
                        None => color == Vec3::zero_vector() && after == mid,
                        Some(s) => exists|incoming: Color|
                            is_light(
                                ar,
                                world,
                                s.scattered,
                                (depth - 1) as nat,
                                mid,
                                after,
                                incoming,
                            ) && #[trigger] is_times(ar, s.attenuation, incoming, color),
                    },
            }
    }
}

/// `ray` is a ray of the camera through a random point of pixel `(i, j)`:
/// from its origin to the sample of the pixel at a random offset.
pub open spec fn is_camera_ray<A: Arithmetic, S: Sampler>(
    ar: &A,
    cam: CameraView,
    i: u32,
    j: u32,
    before: S,
    after: S,
    ray: Ray,
) -> bool {
    exists|mid: S, offset: Vec3, point: Point3|
        #[trigger] is_pixel_sample(ar, before, mid, offset) && #[trigger] is_sample_point(
            ar,
            cam.frame,
            i,
            j,
            offset,
            point,
        ) && is_ray_origin(ar, cam.defocus_angle, cam.frame, mid, after, ray.origin) && is_minus(
            ar,
            point,
            ray.origin,
            ray.direction,
        )
}

/// `sum` is the light of `k` samples of pixel `(i, j)`, added up one after
/// the other from black.
pub open spec fn is_sample_sum<A: Arithmetic, S: Sampler>(
    ar: &A,
    cam: CameraView,
    world: Seq<Arc<Hittable>>,
    i: u32,
    j: u32,
    k: nat,
    before: S,
    after: S,
    sum: Color,
) -> bool
    decreases k,
{
    if k == 0 {
        sum == Vec3::zero_vector() && after == before
    } else {
        exists|earlier: S, aimed: S, so_far: Color, ray: Ray, light: Color|
            is_sample_sum(ar, cam, world, i, j, (k - 1) as nat, before, earlier, so_far)
                && #[trigger] is_camera_ray(ar, cam, i, j, earlier, aimed, ray) && is_light(
                ar,
                world,
                ray,
                cam.max_depth as nat,
                aimed,
                after,
                light,
            ) && #[trigger] is_plus(ar, so_far, light, sum)
    }
}

/// `rgb` is the written form of a linear colour.
pub open spec fn is_written<A: Arithmetic>(ar: &A, color: Color, rgb: Rgb) -> bool {
    is_channel(ar, color.x, rgb.r) && is_channel(ar, color.y, rgb.g) && is_channel(
        ar,
        color.z,
        rgb.b,
    )
}

/// `rgb` is pixel `(i, j)` of the image: the light of its samples, added
/// up, times one over their number, written out.
pub open spec fn is_pixel<A: Arithmetic, S: Sampler>(
    ar: &A,
    cam: CameraView,
    world: Seq<Arc<Hittable>>,
    i: u32,
    j: u32,
    before: S,
    after: S,
    rgb: Rgb,
) -> bool {
    exists|sum: Color, mean: Color|
        is_sample_sum(ar, cam, world, i, j, cam.samples_per_pixel as nat, before, after, sum)
            && #[trigger] is_scaled(ar, cam.frame.pixel_samples_scale, sum, mean) && is_written(
            ar,
            mean,
            rgb,
        )
}

/// `pixels` are the pixels of the image, and `sources` the sources between
/// them: pixel `k` is drawn with the bits that lead from source `k` to
/// source `k + 1`.
pub open spec fn is_pixel_run<A: Arithmetic, S: Sampler>(
    ar: &A,
    cam: CameraView,
    world: Seq<Arc<Hittable>>,
    sources: Seq<S>,
    pixels: Seq<Rgb>,
) -> bool {
    &&& sources.len() == pixels.len() + 1
    &&& forall|k: int|
        0 <= k < pixels.len() ==> is_pixel(
            ar,
            cam,
            world,
            (k % cam.image_width as int) as u32,
            (k / cam.image_width as int) as u32,
            sources[k],
            sources[k + 1],
            #[trigger] pixels[k],
        )
}

/// `pixels` is the image of the world as the camera, once ready, sees it:
/// row by row from the top, each row from the left, so that pixel `(i, j)`
/// stands at `j * width + i`, and drawn in that order with the random bits
/// that lead from the source `before` to the source `after`.
pub open spec fn is_image<A: Arithmetic, S: Sampler>(
    ar: &A,
    cam: CameraView,
    world: Seq<Arc<Hittable>>,
    before: S,
    after: S,
    pixels: Seq<Rgb>,
) -> bool {
    &&& pixels.len() == cam.image_width * cam.frame.image_height
    &&& exists|sources: Seq<S>|
        #[trigger] is_pixel_run(ar, cam, world, sources, pixels) && sources[0] == before
            && sources[pixels.len() as int] == after
}

impl CameraView {
    /// What is wrong with the configuration, if anything: the first of a
    /// width of zero, a sample count of zero, and an aspect ratio that is
    /// not a number above zero.
    pub open spec fn config_error(self) -> Option<ConfigError> {
        if self.image_width == 0 {
            Some(ConfigError::ZeroWidth)
        } else if self.samples_per_pixel == 0 {
            Some(ConfigError::ZeroSamples)
        } else if !(Scalar { bits: 0 }).below(self.aspect_ratio) {
            Some(ConfigError::InvalidAspectRatio)
        } else {
            None
        }
    }

    /// The configuration of `other` is that of `self`.
    pub open spec fn same_config(self, other: CameraView) -> bool {
        &&& self.aspect_ratio == other.aspect_ratio
        &&& self.image_width == other.image_width
        &&& self.samples_per_pixel == other.samples_per_pixel
        &&& self.max_depth == other.max_depth
        &&& self.vfov == other.vfov
        &&& self.lookfrom == other.lookfrom
        &&& self.lookat == other.lookat
        &&& self.vup == other.vup
        &&& self.defocus_angle == other.defocus_angle
        &&& self.focus_dist == other.focus_dist
    }
}

impl Camera {
    /// A square image a hundred pixels wide, ten samples a pixel and ten
    /// bounces a ray, seen from the origin along the negative z axis with a
    /// field of view of ninety degrees and no defocus.
    pub fn default() -> (r: Camera)
        ensures
            r@.aspect_ratio.bits == ONE_BITS,
            r@.image_width == 100,
            r@.samples_per_pixel == 10,
            r@.max_depth == 10,
            r@.vfov.bits == RIGHT_ANGLE_BITS,
            r@.lookfrom == Vec3::zero_vector(),
            r@.lookat == (Vec3 {
                x: Scalar { bits: 0 },
                y: Scalar { bits: 0 },
                z: Scalar { bits: MINUS_ONE_BITS },
            }),
            r@.vup == (Vec3 {
                x: Scalar { bits: 0 },
                y: Scalar { bits: ONE_BITS },
                z: Scalar { bits: 0 },
            }),
            r@.defocus_angle.bits == 0,
            r@.focus_dist.bits == TEN_BITS,
            r@.frame == Frame::unready(),
            r@.config_error() is None,
    {
        proof {
            lemma_one();
            lemma_pow2_pos(1074);
        }
        Camera {
            aspect_ratio: Scalar::one(),
            image_width: 100,
            samples_per_pixel: 10,
            max_depth: 10,
            vfov: Scalar::from_bits(RIGHT_ANGLE_BITS),
            lookfrom: Vec3::zero(),
            lookat: Vec3::new(Scalar::zero(), Scalar::zero(), Scalar::from_bits(MINUS_ONE_BITS)),
            vup: Vec3::new(Scalar::zero(), Scalar::one(), Scalar::zero()),
            defocus_angle: Scalar::zero(),
            focus_dist: Scalar::from_bits(TEN_BITS),
            frame: Frame {
                image_height: 0,
                pixel_samples_scale: Scalar::zero(),
                center: Vec3::zero(),
                pixel00_loc: Vec3::zero(),
                pixel_delta_u: Vec3::zero(),
                pixel_delta_v: Vec3::zero(),
                u: Vec3::zero(),
                v: Vec3::zero(),
                w: Vec3::zero(),
                defocus_disk_u: Vec3::zero(),
                defocus_disk_v: Vec3::zero(),
            },
        }
    }

    /// A camera set to the given configuration, not yet ready.
    pub fn new(
        aspect_ratio: Scalar,
        image_width: u32,
        samples_per_pixel: u32,
        max_depth: u32,
        vfov: Scalar,
        lookfrom: Point3,
        lookat: Point3,
        vup: Vec3,
        defocus_angle: Scalar,
        focus_dist: Scalar,
    ) -> (r: Camera)
        ensures
            r@.aspect_ratio == aspect_ratio,
            r@.image_width == image_width,
            r@.samples_per_pixel == samples_per_pixel,
            r@.max_depth == max_depth,
            r@.vfov == vfov,
            r@.lookfrom == lookfrom,
            r@.lookat == lookat,
            r@.vup == vup,
            r@.defocus_angle == defocus_angle,
            r@.focus_dist == focus_dist,
            r@.frame == Frame::unready(),
    {
        let mut r = Camera::default();
        r.aspect_ratio = aspect_ratio;
        r.image_width = image_width;
        r.samples_per_pixel = samples_per_pixel;
        r.max_depth = max_depth;
        r.vfov = vfov;
        r.lookfrom = lookfrom;
        r.lookat = lookat;
        r.vup = vup;
        r.defocus_angle = defocus_angle;
        r.focus_dist = focus_dist;
        r
    }

    /// Checks the configuration.
    pub fn check(&self) -> (r: Result<(), ConfigError>)
        ensures
            r == match self@.config_error() {
                Some(e) => Err::<(), ConfigError>(e),
                None => Ok::<(), ConfigError>(()),
            },
    {
        if self.image_width == 0 {
            Err(ConfigError::ZeroWidth)
        } else if self.samples_per_pixel == 0 {
            Err(ConfigError::ZeroSamples)
        } else if !self.aspect_ratio.gt(Scalar::zero()) {
            Err(ConfigError::InvalidAspectRatio)
        } else {
            Ok(())
        }
    }

    /// The image height for a width and an aspect ratio, at least one.
    pub fn image_height_for<A: Arithmetic>(ar: &A, width: u32, aspect_ratio: Scalar) -> (height:
        u32)
        ensures
            is_image_height(ar, width, aspect_ratio, height),
            height >= 1,
    {
        let wide = Scalar::from_u32(width);
        let q = ar.quotient(wide, aspect_ratio);
        let whole = q.to_u32();
        if whole == 0 {
            1
        } else {
            whole
        }
    }

    /// The tangent of an angle in degrees.
    fn tangent_of_degrees<A: Arithmetic>(ar: &A, degrees: Scalar) -> (t: Scalar)
        ensures
            is_tangent_of_degrees(ar, degrees, t),
    {
        let radians = to_radians(ar, degrees);
        ar.tangent(radians)
    }

    /// The height of the viewport at the focus distance.
    fn viewport_height<A: Arithmetic>(&self, ar: &A) -> (vh: Scalar)
        ensures
            is_viewport_height(ar, self.vfov, self.focus_dist, vh),
    {
        let two = Scalar::from_bits(TWO_BITS);
        let theta = to_radians(ar, self.vfov);
        let half = ar.quotient(theta, two);
        let h = ar.tangent(half);
        let hh = ar.product(two, h);
        let vh = ar.product(hh, self.focus_dist);
        vh
    }

    /// The width of the viewport.
    fn viewport_width<A: Arithmetic>(ar: &A, vh: Scalar, width: u32, height: u32) -> (vw: Scalar)
        ensures
            is_viewport_width(ar, vh, width, height, vw),
    {
        let wide = Scalar::from_u32(width);
        let high = Scalar::from_u32(height);
        let ratio = ar.quotient(wide, high);
        ar.product(vh, ratio)
    }

    /// The step from pixel to pixel along a viewport edge.
    fn pixel_delta<A: Arithmetic>(ar: &A, edge: Vec3, pixels: u32) -> (delta: Vec3)
        ensures
            is_pixel_delta(ar, edge, pixels, delta),
    {
        edge.div(ar, Scalar::from_u32(pixels))
    }

    /// The upper left corner of the viewport.
    fn upper_left<A: Arithmetic>(
        ar: &A,
        center: Point3,
        focus_dist: Scalar,
        w: Vec3,
        edge_u: Vec3,
        edge_v: Vec3,
    ) -> (corner: Point3)
        ensures
            is_upper_left(ar, center, focus_dist, w, edge_u, edge_v, corner),
    {
        let two = Scalar::from_bits(TWO_BITS);
        let depth = w.scale(ar, focus_dist);
        let a = center.sub(ar, depth);
        let half_u = edge_u.div(ar, two);
        let b = a.sub(ar, half_u);
        let half_v = edge_v.div(ar, two);
        b.sub(ar, half_v)
    }

    /// The centre of the pixel in the upper left corner.
    fn first_pixel<A: Arithmetic>(ar: &A, corner: Point3, delta_u: Vec3, delta_v: Vec3) -> (p:
        Point3)
        ensures
            is_first_pixel(ar, corner, delta_u, delta_v, p),
    {
        let step = delta_u.add(ar, delta_v);
        let half = step.scale(ar, Scalar::from_bits(HALF_BITS));
        corner.add(ar, half)
    }

    /// The radius of the defocus disk.
    fn defocus_radius<A: Arithmetic>(&self, ar: &A) -> (radius: Scalar)
        ensures
            is_defocus_radius(ar, self.focus_dist, self.defocus_angle, radius),
    {
        let half = ar.quotient(self.defocus_angle, Scalar::from_bits(TWO_BITS));
        let t = Camera::tangent_of_degrees(ar, half);
        ar.product(self.focus_dist, t)
    }

    /// Gets the camera ready to render: checks the configuration and
    /// derives the frame from it, all of it anew. A configuration that does
    /// not pass leaves the camera as it was.
    pub fn init<A: Arithmetic>(&mut self, ar: &A) -> (r: Result<(), ConfigError>)
        ensures
            old(self)@.same_config(final(self)@),
            match old(self)@.config_error() {
                Some(e) => r == Err::<(), ConfigError>(e) && final(self)@.frame == old(self)@.frame,
                None => r == Ok::<(), ConfigError>(()) && is_frame(ar, final(self)@, final(self)@.frame),
            },
    {
        match self.check() {
            Err(e) => {
                return Err(e);
            },
            Ok(_) => {},
        }
        let image_height = Camera::image_height_for(ar, self.image_width, self.aspect_ratio);
        let count = Scalar::from_u32(self.samples_per_pixel);
        let pixel_samples_scale = ar.quotient(Scalar::one(), count);
        assert(is_sample_scale(ar, self.samples_per_pixel, pixel_samples_scale));
        let center = self.lookfrom;

        let vh = self.viewport_height(ar);
        let vw = Camera::viewport_width(ar, vh, self.image_width, image_height);

        let back = self.lookfrom.sub(ar, self.lookat);
        let w = back.unit_vector(ar);
        let right = self.vup.cross(ar, w);
        let u = right.unit_vector(ar);
        let v = w.cross(ar, u);
        assert(is_basis(ar, self.lookfrom, self.lookat, self.vup, u, v, w));

        let edge_u = u.scale(ar, vw);
        let edge_v = v.scale(ar, vh.negated());

        let pixel_delta_u = Camera::pixel_delta(ar, edge_u, self.image_width);
        let pixel_delta_v = Camera::pixel_delta(ar, edge_v, image_height);

        let corner = Camera::upper_left(ar, center, self.focus_dist, w, edge_u, edge_v);
        let pixel00_loc = Camera::first_pixel(ar, corner, pixel_delta_u, pixel_delta_v);

        let radius = self.defocus_radius(ar);
        let defocus_disk_u = u.scale(ar, radius);
        let defocus_disk_v = v.scale(ar, radius);

        self.frame = Frame {
            image_height,
            pixel_samples_scale,
            center,
            pixel00_loc,
            pixel_delta_u,
            pixel_delta_v,
            u,
            v,
            w,
            defocus_disk_u,
            defocus_disk_v,
        };
        Ok(())
    }

    /// The colour of the sky in the direction of a ray that hit nothing.
    pub fn sky<A: Arithmetic>(ar: &A, r: &Ray) -> (color: Color)
        ensures
            is_sky(ar, r.direction, color),
    {
        let one = Scalar::one();
        let unit_direction = r.direction().unit_vector(ar);
        let up = ar.sum(unit_direction.y(), one);
        let a = ar.product(Scalar::from_bits(HALF_BITS), up);
        assert(is_elevation(ar, unit_direction.y, a));
        let rest = ar.difference(one, a);
        let horizon = Vec3::new(one, one, one);
        let pale = horizon.scale(ar, rest);
        let zenith = Vec3::new(Scalar::from_bits(HALF_BITS), Scalar::from_bits(SKY_GREEN_BITS), one);
        let tint = zenith.scale(ar, a);
        assert(horizon == white());
        assert(zenith == sky_blue());
        let color = pale.add(ar, tint);
        assert(is_gradient(ar, a, color));
        color
    }

    /// The light that arrives along a ray, for a budget of `depth` bounces.
    ///
    /// With no bounce left the answer is black. A ray that hits nothing
    /// from parameter 0.001 on sees the sky. A ray that hits a surface
    /// is handed to the material there: absorbed, it brings black; scattered,
    /// it brings the light along the scattered ray, for one bounce less,
    /// times the attenuation.
    pub fn ray_color<A: Arithmetic, S: Sampler>(
        &self,
        ar: &A,
        s: &mut S,
        r: &Ray,
        depth: u32,
        world: &HittableList,
    ) -> (color: Color)
        ensures
            is_light(ar, world@, *r, depth as nat, *old(s), *final(s), color),
            depth == 0 ==> color == Vec3::zero_vector(),
            depth > 0 && world@.len() == 0 ==> is_sky(ar, r.direction, color),
        decreases depth,
    {
        if depth == 0 {
            return Vec3::zero();
        }
        let range = Interval::new(Scalar::from_bits(SHADOW_BIAS_BITS), Scalar::infinity());
        assert(range == visible_range());
        let hit = world.hit(ar, r, range);
        match hit {
            Some(rec) => {
                let sc = rec.mat.scatter(ar, s, r, &rec);
                let ghost mid = *s;
                match sc {
                    Some(bounce) => {
                        let incoming = self.ray_color(ar, s, &bounce.scattered, depth - 1, world);
                        let color = bounce.attenuation.mul(ar, incoming);
                        assert(is_times(ar, bounce.attenuation, incoming, color));
                        assert(is_scattering(ar, *rec.mat, *r, rec, *old(s), mid, sc));
                        assert(is_light(ar, world@, *r, depth as nat, *old(s), *s, color));
                        color
                    },
                    None => {
                        let color = Vec3::zero();
                        assert(is_scattering(ar, *rec.mat, *r, rec, *old(s), mid, sc));
                        assert(is_light(ar, world@, *r, depth as nat, *old(s), *s, color));
                        color
                    },
                }
            },
            None => {
                let color = Camera::sky(ar, r);
                assert(is_light(ar, world@, *r, depth as nat, *old(s), *s, color));
                color
            },
        }
    }

    /// A random point in the square of half a pixel around a pixel's centre,
    /// in steps of a pixel.
    pub fn pixel_sample_square<A: Arithmetic, S: Sampler>(&self, ar: &A, s: &mut S) -> (r: Vec3)
        ensures
            is_pixel_sample(ar, *old(s), *final(s), r),
    {
        let low = Scalar::from_bits(MINUS_HALF_BITS);
        let ux = random_double(s);
        let x = ar.sum(low, ux);
        let ghost mid = *s;
        let uy = random_double(s);
        let y = ar.sum(low, uy);
        let r = Vec3::new(x, y, Scalar::zero());
        assert(is_jitter(ar, *old(s), mid, r.x));
        assert(is_jitter(ar, mid, *s, r.y));
        r
    }

    /// A random point of the defocus disk.
    pub fn defocus_disk_sample<A: Arithmetic, S: Sampler>(&self, ar: &A, s: &mut S) -> (r: Point3)
        ensures
            is_lens_sample(ar, self@.frame, *old(s), *final(s), r),
    {
        let p = random_in_unit_disk(ar, s);
        let a = self.frame.defocus_disk_u.scale(ar, p.x());
        let b = self.frame.center.add(ar, a);
        let c = self.frame.defocus_disk_v.scale(ar, p.y());
        let r = b.add(ar, c);
        assert(is_lens_point(ar, self@.frame, p, r));
        r
    }

    /// The step from the first pixel to a sample of pixel `index` along one
    /// axis.
    fn pixel_offset<A: Arithmetic>(ar: &A, index: u32, jitter: Scalar, delta: Vec3) -> (step: Vec3)
        ensures
            is_pixel_offset(ar, index, jitter, delta, step),
    {
        let whole = Scalar::from_u32(index);
        let k = ar.sum(whole, jitter);
        delta.scale(ar, k)
    }

    /// A ray from the camera through a random point of pixel `(i, j)`,
    /// column first. It starts on the defocus disk, or at the centre of the
    /// camera where the defocus angle is at most zero.
    pub fn get_ray<A: Arithmetic, S: Sampler>(&self, ar: &A, s: &mut S, i: u32, j: u32) -> (r: Ray)
        ensures
            is_camera_ray(ar, self@, i, j, *old(s), *final(s), r),
    {
        let offset = self.pixel_sample_square(ar, s);
        let ghost mid = *s;
        let across = Camera::pixel_offset(ar, i, offset.x(), self.frame.pixel_delta_u);
        let a = self.frame.pixel00_loc.add(ar, across);
        let down = Camera::pixel_offset(ar, j, offset.y(), self.frame.pixel_delta_v);
        let pixel_center = a.add(ar, down);
        assert(is_sample_point(ar, self@.frame, i, j, offset, pixel_center));
        let ray_origin = if self.defocus_angle.le(Scalar::zero()) {
            self.frame.center
        } else {
            self.defocus_disk_sample(ar, s)
        };
        let ray_direction = pixel_center.sub(ar, ray_origin);
        assert(is_ray_origin(ar, self@.defocus_angle, self@.frame, mid, *s, ray_origin));
        Ray::new(ray_origin, ray_direction)
    }

    /// The colour of pixel `(i, j)`: the sum of the light along
    /// `samples_per_pixel` random rays through it, times one over their
    /// number, written out.
    pub fn pixel<A: Arithmetic, S: Sampler>(
        &self,
        ar: &A,
        s: &mut S,
        i: u32,
        j: u32,
        world: &HittableList,
    ) -> (rgb: Rgb)
        ensures
            is_pixel(ar, self@, world@, i, j, *old(s), *final(s), rgb),
    {
        let mut pixel_color = Vec3::zero();
        let mut k: u32 = 0;
        let ghost start = *s;
        while k < self.samples_per_pixel
            invariant
                k <= self.samples_per_pixel,
                start == *old(s),
                is_sample_sum(ar, self@, world@, i, j, k as nat, start, *s, pixel_color),
            decreases self.samples_per_pixel - k,
        {
            let ghost so_far = pixel_color;
            let ghost earlier = *s;
            let r = self.get_ray(ar, s, i, j);
            let ghost aimed = *s;
            let light = self.ray_color(ar, s, &r, self.max_depth, world);
            pixel_color.add_assign(ar, light);
            assert(is_plus(ar, so_far, light, pixel_color));
            assert(is_camera_ray(ar, self@, i, j, earlier, aimed, r));
            k = k + 1;
        }
        let mean = pixel_color.scale(ar, self.frame.pixel_samples_scale);
        write_color(ar, mean)
    }

    /// Renders the world: gets the camera ready, then fills the image row
    /// by row from the top, each row from the left.
    ///
    /// A configuration that does not pass is refused before anything is
    /// drawn.
    pub fn render<A: Arithmetic, S: Sampler>(
        &mut self,
        ar: &A,
        s: &mut S,
        world: &HittableList,
    ) -> (res: Result<Image, ConfigError>)
        ensures
            old(self)@.same_config(final(self)@),
            match old(self)@.config_error() {
                Some(e) => {
                    &&& res matches Err(x) && x == e
                    &&& final(self)@.frame == old(self)@.frame
                    &&& *final(s) == *old(s)
                },
                None => {
                    &&& res matches Ok(image) && image.width == final(self)@.image_width
                        && image.height == final(self)@.frame.image_height && is_image(
                        ar,
                        final(self)@,
                        world@,
                        *old(s),
                        *final(s),
                        image.pixels@,
                    )
                    &&& is_frame(ar, final(self)@, final(self)@.frame)
                },
            },
    {
        match self.init(ar) {
            Err(e) => {
                return Err(e);
            },
            Ok(_) => {},
        }
        let width = self.image_width;
        let height = self.frame.image_height;
        let ghost ready = *self;
        let ghost mut sources: Seq<S> = seq![*s];
        let mut pixels: Vec<Rgb> = Vec::new();
        let mut j: u32 = 0;
        while j < height
            invariant
                j <= height,
                *self == ready,
                width == self.image_width,
                height == self.frame.image_height,
                pixels@.len() == j * width,
                is_pixel_run(ar, ready@, world@, sources, pixels@),
                sources[0] == *old(s),
                sources[pixels@.len() as int] == *s,
            decreases height - j,
        {
            let mut i: u32 = 0;
            while i < width
                invariant
                    i <= width,
                    j < height,
                    *self == ready,
                    width == self.image_width,
                    height == self.frame.image_height,
                    pixels@.len() == j * width + i,
                    is_pixel_run(ar, ready@, world@, sources, pixels@),
                    sources[0] == *old(s),
                    sources[pixels@.len() as int] == *s,
                decreases width - i,
            {
                let rgb = self.pixel(ar, s, i, j, world);
                proof {
                    let at = j * width + i;
                    lemma_fundamental_div_mod_converse(at, width as int, j as int, i as int);
                    sources = sources.push(*s);
                }
                pixels.push(rgb);
                i = i + 1;
            }
            assert((j + 1) * width == j * width + width) by (nonlinear_arith);
            j = j + 1;
        }
        assert(height * width == width * height) by (nonlinear_arith);
        Ok(Image { width, height, pixels })
    }
}

} // verus!
