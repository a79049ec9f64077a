//! One configuration, one world and one source of random bits: one image.
use crate::modules::arithmetic::Arithmetic;
use crate::modules::camera::{
    is_camera_ray, is_frame, is_image, is_light, is_pixel, is_pixel_run, is_pixel_sample,
    is_ray_origin, is_sample_point, is_sample_sum, is_sky, is_written, visible_range, CameraView,
};
use crate::modules::color::{Color, Rgb};
use crate::modules::conversion::is_integer;
use crate::modules::determinism::draws::{
    lemma_direction_draw_is_determined, lemma_disk_draw_is_determined,
    lemma_unit_draw_is_determined,
};
use crate::modules::determinism::frame::{lemma_frame_is_determined, lemma_integer_is_determined};
use crate::modules::determinism::hits::{
    lemma_nearest_is_determined, lemma_sky_is_determined, lemma_written_is_determined,
};
use crate::modules::determinism::{is_function, is_repeatable};
use crate::modules::hittable::{is_nearest, HitRecord, Hittable};
use crate::modules::material::{is_scattering, Material, Scatter};
use crate::modules::ray::Ray;
use crate::modules::sampler::Sampler;
use crate::modules::scalar::Scalar;
use crate::modules::utils::is_unit_draw;
use crate::modules::vec3::{
    is_direction_draw, is_disk_draw, is_minus, is_plus, is_scaled, is_times, Point3, Vec3,
};
use std::sync::Arc;
use vstd::prelude::*;

verus! {

/// A material does one thing with a ray, for given random bits.
pub proof fn lemma_scattering_is_determined<A: Arithmetic, S: Sampler>(
    ar: &A,
    material: Material,
    r_in: Ray,
    rec: HitRecord,
    before: S,
    after: S,
    res: Option<Scatter>,
    after2: S,
    res2: Option<Scatter>,
)
    requires
        is_function(ar),
        is_repeatable::<S>(),
        is_scattering(ar, material, r_in, rec, before, after, res),
        is_scattering(ar, material, r_in, rec, before, after2, res2),
    ensures
        after == after2,
        res == res2,
{
    assert forall|a: S, d: Vec3, a2: S, d2: Vec3|
        is_direction_draw(ar, before, a, d) && is_direction_draw(
            ar,
            before,
            a2,
            d2,
        ) implies a == a2 && d == d2 by {
        lemma_direction_draw_is_determined(ar, before, a, d, a2, d2);
    }
    assert forall|a: S, u: Scalar, a2: S, u2: Scalar|
        is_unit_draw(before, a, u) && is_unit_draw(before, a2, u2) implies a == a2 && u == u2 by {
        lemma_unit_draw_is_determined(before, a, u, a2, u2);
    }
    match material {
        Material::Lambertian(m) => {},
        Material::Metal(m) => {},
        Material::Dielectric(m) => {},
    }
}

/// A ray brings one light from a world, for given random bits.
pub proof fn lemma_light_is_determined<A: Arithmetic, S: Sampler>(
    ar: &A,
    world: Seq<Arc<Hittable>>,
    r: Ray,
    depth: nat,
    before: S,
    after: S,
    color: Color,
    after2: S,
    color2: Color,
)
    requires
        is_function(ar),
        is_repeatable::<S>(),
        is_light(ar, world, r, depth, before, after, color),
        is_light(ar, world, r, depth, before, after2, color2),
    ensures
        after == after2,
        color == color2,
    decreases depth,
{
    if depth > 0 {
        let hit = choose|hit: Option<HitRecord>|
            #[trigger] is_nearest(ar, world, r, visible_range(), hit) && match hit {
                None => is_sky(ar, r.direction, color) && after == before,
                Some(rec) => exists|mid: S, sc: Option<Scatter>|
                    #[trigger] is_scattering(ar, *rec.mat, r, rec, before, mid, sc) && match sc {
                        None => color == Vec3::zero_vector() && after == mid,
                        Some(s) => exists|incoming: Color|
                            is_light(
                                ar,
                                world,
                                s.scattered,
                                (depth - 1) as nat,
                                mid,
                                after,
                                incoming,
                            ) && #[trigger] is_times(ar, s.attenuation, incoming, color),
                    },
            };
        let hit2 = choose|hit: Option<HitRecord>|
            #[trigger] is_nearest(ar, world, r, visible_range(), hit) && match hit {
                None => is_sky(ar, r.direction, color2) && after2 == before,
                Some(rec) => exists|mid: S, sc: Option<Scatter>|
                    #[trigger] is_scattering(ar, *rec.mat, r, rec, before, mid, sc) && match sc {
                        None => color2 == Vec3::zero_vector() && after2 == mid,
                        Some(s) => exists|incoming: Color|
                            is_light(
                                ar,
                                world,
                                s.scattered,
                                (depth - 1) as nat,
                                mid,
                                after2,
                                incoming,
                            ) && #[trigger] is_times(ar, s.attenuation, incoming, color2),
                    },
            };
        lemma_nearest_is_determined(ar, world, r, visible_range(), hit, hit2);
        match hit {
            None => {
                lemma_sky_is_determined(ar, r.direction, color, color2);
            },
            Some(rec) => {
                let (mid, sc) = choose|mid: S, sc: Option<Scatter>|
                    #[trigger] is_scattering(ar, *rec.mat, r, rec, before, mid, sc) && match sc {
                        None => color == Vec3::zero_vector() && after == mid,
                        Some(s) => exists|incoming: Color|
                            is_light(
                                ar,
                                world,
                                s.scattered,
                                (depth - 1) as nat,
                                mid,
                                after,
                                incoming,
                            ) && #[trigger] is_times(ar, s.attenuation, incoming, color),
                    };
                let (mid2, sc2) = choose|mid: S, sc: Option<Scatter>|
                    #[trigger] is_scattering(ar, *rec.mat, r, rec, before, mid, sc) && match sc {
                        None => color2 == Vec3::zero_vector() && after2 == mid,
                        Some(s) => exists|incoming: Color|
                            is_light(
                                ar,
                                world,
                                s.scattered,
                                (depth - 1) as nat,
                                mid,
                                after2,
                                incoming,
                            ) && #[trigger] is_times(ar, s.attenuation, incoming, color2),
                    };
                lemma_scattering_is_determined(ar, *rec.mat, r, rec, before, mid, sc, mid2, sc2);
                match sc {
                    None => {},
                    Some(s) => {
                        let incoming = choose|incoming: Color|
                            is_light(
                                ar,
                                world,
                                s.scattered,
                                (depth - 1) as nat,
                                mid,
                                after,
                                incoming,
                            ) && #[trigger] is_times(ar, s.attenuation, incoming, color);
                        let incoming2 = choose|incoming: Color|
                            is_light(
                                ar,
                                world,
                                s.scattered,
                                (depth - 1) as nat,
                                mid,
                                after2,
                                incoming,
                            ) && #[trigger] is_times(ar, s.attenuation, incoming, color2);
                        lemma_light_is_determined(
                            ar,
                            world,
                            s.scattered,
                            (depth - 1) as nat,
                            mid,
                            after,
                            incoming,
                            after2,
                            incoming2,
                        );
                    },
                }
            },
        }
    }
}

/// A pixel has one ray of the camera, for given random bits.
pub proof fn lemma_camera_ray_is_determined<A: Arithmetic, S: Sampler>(
    ar: &A,
    cam: CameraView,
    i: u32,
    j: u32,
    before: S,
    after: S,
    ray: Ray,
    after2: S,
    ray2: Ray,
)
    requires
        is_function(ar),
        is_repeatable::<S>(),
        is_camera_ray(ar, cam, i, j, before, after, ray),
        is_camera_ray(ar, cam, i, j, before, after2, ray2),
    ensures
        after == after2,
        ray == ray2,
{
    let (mid, offset, point) = choose|mid: S, offset: Vec3, point: Point3|
        #[trigger] is_pixel_sample(ar, before, mid, offset) && #[trigger] is_sample_point(
            ar,
            cam.frame,
            i,
            j,
            offset,
            point,
        ) && is_ray_origin(ar, cam.defocus_angle, cam.frame, mid, after, ray.origin) && is_minus(
            ar,
            point,
            ray.origin,
            ray.direction,
        );
    let (mid2, offset2, point2) = choose|mid: S, offset: Vec3, point: Point3|
        #[trigger] is_pixel_sample(ar, before, mid, offset) && #[trigger] is_sample_point(
            ar,
            cam.frame,
            i,
            j,
            offset,
            point,
        ) && is_ray_origin(ar, cam.defocus_angle, cam.frame, mid, after2, ray2.origin) && is_minus(
            ar,
            point,
            ray2.origin,
            ray2.direction,
        );
    assert forall|a: S, u: Scalar, b: S, a2: S, u2: Scalar|
        is_unit_draw(b, a, u) && is_unit_draw(b, a2, u2) implies a == a2 && u == u2 by {
        lemma_unit_draw_is_determined(b, a, u, a2, u2);
    }
    assert(mid == mid2 && offset == offset2);
    assert forall|x: Scalar, y: Scalar, n: int| is_integer(x, n) && is_integer(y, n) implies x
        == y by {
        lemma_integer_is_determined(x, y, n);
    }
    assert(point == point2);
    assert forall|a: S, d: Vec3, a2: S, d2: Vec3|
        is_disk_draw(ar, mid, a, d) && is_disk_draw(ar, mid, a2, d2) implies a == a2 && d
        == d2 by {
        lemma_disk_draw_is_determined(ar, mid, a, d, a2, d2);
    }
}

/// A number of samples of a pixel add up to one sum, for given random bits.
pub proof fn lemma_sample_sum_is_determined<A: Arithmetic, S: Sampler>(
    ar: &A,
    cam: CameraView,
    world: Seq<Arc<Hittable>>,
    i: u32,
    j: u32,
    k: nat,
    before: S,
    after: S,
    sum: Color,
    after2: S,
    sum2: Color,
)
    requires
        is_function(ar),
        is_repeatable::<S>(),
        is_sample_sum(ar, cam, world, i, j, k, before, after, sum),
        is_sample_sum(ar, cam, world, i, j, k, before, after2, sum2),
    ensures
        after == after2,
        sum == sum2,
    decreases k,
{
    if k > 0 {
        let (earlier, aimed, so_far, ray, light) = choose|
            earlier: S,
            aimed: S,
            so_far: Color,
            ray: Ray,
            light: Color,
        |
            is_sample_sum(ar, cam, world, i, j, (k - 1) as nat, before, earlier, so_far)
                && #[trigger] is_camera_ray(ar, cam, i, j, earlier, aimed, ray) && is_light(
                ar,
                world,
                ray,
                cam.max_depth as nat,
                aimed,
                after,
                light,
            ) && #[trigger] is_plus(ar, so_far, light, sum);
        let (earlier2, aimed2, so_far2, ray2, light2) = choose|
            earlier: S,
            aimed: S,
            so_far: Color,
            ray: Ray,
            light: Color,
        |
            is_sample_sum(ar, cam, world, i, j, (k - 1) as nat, before, earlier, so_far)
                && #[trigger] is_camera_ray(ar, cam, i, j, earlier, aimed, ray) && is_light(
                ar,
                world,
                ray,
                cam.max_depth as nat,
                aimed,
                after2,
                light,
            ) && #[trigger] is_plus(ar, so_far, light, sum2);
        lemma_sample_sum_is_determined(
            ar,
            cam,
            world,
            i,
            j,
            (k - 1) as nat,
            before,
            earlier,
            so_far,
            earlier2,
            so_far2,
        );
        lemma_camera_ray_is_determined(ar, cam, i, j, earlier, aimed, ray, aimed2, ray2);
        lemma_light_is_determined(
            ar,
            world,
            ray,
            cam.max_depth as nat,
            aimed,
            after,
            light,
            after2,
            light2,
        );
    }
}

/// A pixel has one colour, for given random bits.
pub proof fn lemma_pixel_is_determined<A: Arithmetic, S: Sampler>(
    ar: &A,
    cam: CameraView,
    world: Seq<Arc<Hittable>>,
    i: u32,
    j: u32,
    before: S,
    after: S,
    rgb: Rgb,
    after2: S,
    rgb2: Rgb,
)
    requires
        is_function(ar),
        is_repeatable::<S>(),
        is_pixel(ar, cam, world, i, j, before, after, rgb),
        is_pixel(ar, cam, world, i, j, before, after2, rgb2),
    ensures
        after == after2,
        rgb == rgb2,
{
    let (sum, mean) = choose|sum: Color, mean: Color|
        is_sample_sum(ar, cam, world, i, j, cam.samples_per_pixel as nat, before, after, sum)
            && #[trigger] is_scaled(ar, cam.frame.pixel_samples_scale, sum, mean) && is_written(
            ar,
            mean,
            rgb,
        );
    let (sum2, mean2) = choose|sum: Color, mean: Color|
        is_sample_sum(ar, cam, world, i, j, cam.samples_per_pixel as nat, before, after2, sum)
            && #[trigger] is_scaled(ar, cam.frame.pixel_samples_scale, sum, mean) && is_written(
            ar,
            mean,
            rgb2,
        );
    lemma_sample_sum_is_determined(
        ar,
        cam,
        world,
        i,
        j,
        cam.samples_per_pixel as nat,
        before,
        after,
        sum,
        after2,
        sum2,
    );
    lemma_written_is_determined(ar, mean, rgb, rgb2);
}

/// Two runs of pixels from one source agree as far as both go.
pub proof fn lemma_pixel_run_is_determined<A: Arithmetic, S: Sampler>(
    ar: &A,
    cam: CameraView,
    world: Seq<Arc<Hittable>>,
    sources: Seq<S>,
    pixels: Seq<Rgb>,
    sources2: Seq<S>,
    pixels2: Seq<Rgb>,
    n: int,
)
    requires
        is_function(ar),
        is_repeatable::<S>(),
        is_pixel_run(ar, cam, world, sources, pixels),
        is_pixel_run(ar, cam, world, sources2, pixels2),
        sources[0] == sources2[0],
        0 <= n <= pixels.len(),
        n <= pixels2.len(),
    ensures
        forall|k: int| 0 <= k < n ==> #[trigger] pixels[k] == pixels2[k],
        sources[n] == sources2[n],
    decreases n,
{
    if n > 0 {
        lemma_pixel_run_is_determined(ar, cam, world, sources, pixels, sources2, pixels2, n - 1);
        let k = n - 1;
        lemma_pixel_is_determined(
            ar,
            cam,
            world,
            (k % cam.image_width as int) as u32,
            (k / cam.image_width as int) as u32,
            sources[k],
            sources[k + 1],
            pixels[k],
            sources2[k + 1],
            pixels2[k],
        );
    }
}

/// A configuration, a world and a source of random bits give one image:
/// two cameras of one configuration, both ready, render the same pixels
/// from the same source, and leave the same source.
pub proof fn lemma_image_is_determined<A: Arithmetic, S: Sampler>(
    ar: &A,
    a: CameraView,
    b: CameraView,
    world: Seq<Arc<Hittable>>,
    before: S,
    after: S,
    pixels: Seq<Rgb>,
    after2: S,
    pixels2: Seq<Rgb>,
)
    requires
        is_function(ar),
        is_repeatable::<S>(),
        a.same_config(b),
        is_frame(ar, a, a.frame),
        is_frame(ar, b, b.frame),
        is_image(ar, a, world, before, after, pixels),
        is_image(ar, b, world, before, after2, pixels2),
    ensures
        pixels == pixels2,
        after == after2,
{
    lemma_frame_is_determined(ar, a, b);
    assert(a == b);
    let sources = choose|sources: Seq<S>|
        #[trigger] is_pixel_run(ar, a, world, sources, pixels) && sources[0] == before
            && sources[pixels.len() as int] == after;
    let sources2 = choose|sources: Seq<S>|
        #[trigger] is_pixel_run(ar, b, world, sources, pixels2) && sources[0] == before
            && sources[pixels2.len() as int] == after2;
    lemma_pixel_run_is_determined(
        ar,
        a,
        world,
        sources,
        pixels,
        sources2,
        pixels2,
        pixels.len() as int,
    );
    assert(pixels =~= pixels2);
}

} // verus!
