use raytracer::modules::arithmetic::Arithmetic;
use raytracer::modules::camera::{Camera, ConfigError};
use raytracer::modules::color::Rgb;
use raytracer::modules::hittable::Hittable;
use raytracer::modules::hittable_list::HittableList;
use raytracer::modules::material::{Dielectric, Lambertian, Material, Metal};
use raytracer::modules::ray::Ray;
use raytracer::modules::sampler::{next_bits, Sampler, SeededSampler};
use raytracer::modules::scalar::Scalar;
use raytracer::modules::sphere::Sphere;
use raytracer::modules::utils::{degrees_to_radians, to_radians};
use raytracer::modules::vec3::Vec3;
use std::sync::Arc;

struct Ieee;

fn s(x: f64) -> Scalar {
    Scalar::from_bits(x.to_bits())
}

fn f(x: Scalar) -> f64 {
    f64::from_bits(x.to_bits())
}

impl Arithmetic for Ieee {
    fn sum(&self, a: Scalar, b: Scalar) -> Scalar {
        s(f(a) + f(b))
    }

    fn difference(&self, a: Scalar, b: Scalar) -> Scalar {
        s(f(a) - f(b))
    }

    fn product(&self, a: Scalar, b: Scalar) -> Scalar {
        s(f(a) * f(b))
    }

    fn quotient(&self, a: Scalar, b: Scalar) -> Scalar {
        s(f(a) / f(b))
    }

    fn square_root(&self, a: Scalar) -> Scalar {
        s(f(a).sqrt())
    }

    fn tangent(&self, a: Scalar) -> Scalar {
        s(f(a).tan())
    }
}

fn v(x: f64, y: f64, z: f64) -> Vec3 {
    Vec3::new(s(x), s(y), s(z))
}

fn xyz(a: Vec3) -> (f64, f64, f64) {
    (f(a.x()), f(a.y()), f(a.z()))
}

fn close(a: f64, b: f64) -> bool {
    (a - b).abs() <= 1e-12 * (1.0 + a.abs().max(b.abs()))
}

/// A sampler that replays a fixed list of draws, over and over.
struct Replay {
    draws: Vec<u64>,
    next: usize,
}

impl Replay {
    fn of(units: &[f64]) -> Replay {
        // The draw whose high 53 bits stand for `u`.
        let draws = units.iter().map(|u| ((u * 9007199254740992.0) as u64) << 11).collect();
        Replay { draws, next: 0 }
    }
}

impl Sampler for Replay {
    fn draw(&self) -> (u64, Replay) {
        let d = self.draws[self.next % self.draws.len()];
        (d, Replay { draws: self.draws.clone(), next: self.next + 1 })
    }
}

fn near(a: Vec3, x: f64, y: f64, z: f64) -> bool {
    let (ax, ay, az) = xyz(a);
    (ax - x).abs() < 1e-9 && (ay - y).abs() < 1e-9 && (az - z).abs() < 1e-9
}

fn sphere(x: f64, y: f64, z: f64, radius: f64, mat: Material) -> Arc<Hittable> {
    Arc::new(Hittable::Sphere(Sphere::new(v(x, y, z), s(radius), Arc::new(mat))))
}

fn one_grey_sphere() -> HittableList {
    let mut world = HittableList::new();
    world.add(sphere(0.0, 0.0, -1.0, 0.5, Material::Lambertian(Lambertian::new(v(0.5, 0.5, 0.5)))));
    world
}

#[test]
fn default_configuration() {
    let c = Camera::default();
    assert_eq!(f(c.aspect_ratio), 1.0);
    assert_eq!(c.image_width, 100);
    assert_eq!(c.samples_per_pixel, 10);
    assert_eq!(c.max_depth, 10);
    assert_eq!(f(c.vfov), 90.0);
    assert_eq!(xyz(c.lookfrom), (0.0, 0.0, 0.0));
    assert_eq!(xyz(c.lookat), (0.0, 0.0, -1.0));
    assert_eq!(xyz(c.vup), (0.0, 1.0, 0.0));
    assert_eq!(f(c.defocus_angle), 0.0);
    assert_eq!(f(c.focus_dist), 10.0);
    assert_eq!(c.check(), Ok(()));
}

/// The ray through the centre of pixel `(i, j)` from the centre of the lens.
fn centre_ray(c: &Camera, i: u32, j: u32) -> Ray {
    c.get_ray(&Ieee, &mut Replay::of(&[0.5]), i, j)
}

/// What the rays of a camera that is ready show of its frame: the centre,
/// the way to the first pixel, and the steps from pixel to pixel.
fn seen(c: &Camera) -> (Vec3, Vec3, Vec3, Vec3) {
    let first = centre_ray(c, 0, 0);
    let right = centre_ray(c, 1, 0).direction().sub(&Ieee, first.direction());
    let down = centre_ray(c, 0, 1).direction().sub(&Ieee, first.direction());
    (first.origin(), first.direction(), right, down)
}

fn height_of(c: &mut Camera) -> u32 {
    let samples = c.samples_per_pixel;
    c.samples_per_pixel = 1;
    let image = c.render(&Ieee, &mut SeededSampler::new(0), &HittableList::new()).unwrap();
    c.samples_per_pixel = samples;
    image.height
}

#[test]
fn init_derives_the_frame() {
    let mut c = Camera::default();
    assert_eq!(c.init(&Ieee), Ok(()));
    let (centre, to_first, right, down) = seen(&c);
    assert_eq!(centre, c.lookfrom);
    // The viewport is 20 by 20 at distance 10, a hundred pixels each way.
    assert!(near(to_first, -9.9, 9.9, -10.0));
    assert!(near(right, 0.2, 0.0, 0.0));
    assert!(near(down, 0.0, -0.2, 0.0));
    // Without defocus the lens is a point.
    let mut sampler = SeededSampler::new(4);
    for _ in 0..20 {
        assert!(near(c.defocus_disk_sample(&Ieee, &mut sampler), 0.0, 0.0, 0.0));
    }
    assert_eq!(height_of(&mut c), 100);
}

#[test]
fn init_follows_the_view() {
    let mut c = Camera::default();
    c.aspect_ratio = s(2.0);
    c.image_width = 40;
    c.vfov = s(60.0);
    c.lookfrom = v(3.0, 0.0, 0.0);
    c.lookat = v(0.0, 0.0, 0.0);
    c.vup = v(0.0, 0.0, 1.0);
    c.defocus_angle = s(2.0);
    c.focus_dist = s(3.0);
    assert_eq!(c.init(&Ieee), Ok(()));
    let (centre, to_first, right, down) = seen(&c);
    assert!(near(centre, 3.0, 0.0, 0.0));
    let vh = 2.0 * (30.0f64.to_radians()).tan() * 3.0;
    let vw = vh * 2.0;
    // The camera looks along -x, with y to its right and z up.
    assert!(near(right, 0.0, vw / 40.0, 0.0));
    assert!(near(down, 0.0, 0.0, -vh / 20.0));
    assert!(near(to_first, -3.0, -vw / 2.0 + vw / 80.0, vh / 2.0 - vh / 40.0));
    // The disk point (0.5, -0.5) picks centre + 0.5 u - 0.5 v of the lens.
    let radius = 3.0 * (1.0f64.to_radians()).tan();
    let p = c.defocus_disk_sample(&Ieee, &mut Replay::of(&[0.75, 0.25]));
    assert!(near(p, 3.0, 0.5 * radius, -0.5 * radius));
    assert_eq!(height_of(&mut c), 20);
}

#[test]
fn angles_are_turned_into_radians_by_one_product() {
    // With a viewport at distance one and two pixels each way, the first
    // pixel stands a quarter of the viewport's height above the axis, and
    // no sum on the way to it rounds.
    for vfov in [3.0f64, 1.5, 20.0, 90.0, 47.3] {
        let mut c = Camera::default();
        c.image_width = 2;
        c.vfov = s(vfov);
        c.focus_dist = s(1.0);
        assert_eq!(c.init(&Ieee), Ok(()));
        let first = centre_ray(&c, 0, 0).direction();
        let by_product = 2.0 * (vfov.to_radians() / 2.0).tan();
        assert_eq!(f(first.y()), by_product / 4.0, "{} degrees", vfov);
        assert_eq!(f(first.x()), -by_product / 4.0, "{} degrees", vfov);
    }
    // For three of these angles the quotient of the product with pi by 180
    // is another number.
    for vfov in [3.0f64, 1.5, 47.3] {
        let by_quotient = 2.0 * ((vfov * std::f64::consts::PI / 180.0) / 2.0).tan();
        assert_ne!(by_quotient, 2.0 * (vfov.to_radians() / 2.0).tan());
    }
    assert_eq!(f(to_radians(&Ieee, s(3.0))), (3.0f64).to_radians());
    assert_eq!(f(to_radians(&Ieee, s(1.5))), (1.5f64).to_radians());
    assert_eq!(f(to_radians(&Ieee, s(180.0))), (180.0f64).to_radians());
    assert_eq!(f(degrees_to_radians(&Ieee, s(3.0))), 3.0 * std::f64::consts::PI / 180.0);
}

#[test]
fn defocus_angle_is_halved_before_it_is_turned_into_radians() {
    let mut c = Camera::default();
    c.defocus_angle = s(3.0);
    c.focus_dist = s(1.0);
    assert_eq!(c.init(&Ieee), Ok(()));
    // The disk point (0.5, 0) picks the centre plus half the disk's radius.
    let p = c.defocus_disk_sample(&Ieee, &mut Replay::of(&[0.75, 0.5]));
    let radius = 1.0 * (3.0f64 / 2.0).to_radians().tan();
    assert_eq!(f(p.x()), 0.5 * radius);
    assert_ne!(radius, (1.5f64 * std::f64::consts::PI / 180.0).tan());
}

#[test]
fn init_is_made_anew_after_a_change() {
    let mut c = Camera::default();
    assert_eq!(c.init(&Ieee), Ok(()));
    let first = seen(&c);
    assert_eq!(c.init(&Ieee), Ok(()));
    assert_eq!(seen(&c), first);
    c.image_width = 50;
    c.aspect_ratio = s(2.0);
    c.samples_per_pixel = 4;
    c.lookfrom = v(0.0, 1.0, 0.0);
    // Nothing is derived before the camera gets ready again.
    assert_eq!(seen(&c), first);
    assert_eq!(c.init(&Ieee), Ok(()));
    let second = seen(&c);
    assert_eq!(second.0, v(0.0, 1.0, 0.0));
    assert_ne!(second.2, first.2);
    let mut fresh = Camera::default();
    fresh.image_width = 50;
    fresh.aspect_ratio = s(2.0);
    fresh.samples_per_pixel = 4;
    fresh.lookfrom = v(0.0, 1.0, 0.0);
    assert_eq!(fresh.init(&Ieee), Ok(()));
    assert_eq!(seen(&fresh), second);
    assert_eq!(height_of(&mut c), 25);
}

#[test]
fn image_height_is_cut_down_and_at_least_one() {
    assert_eq!(Camera::image_height_for(&Ieee, 400, s(16.0 / 9.0)), 225);
    assert_eq!(Camera::image_height_for(&Ieee, 1200, s(16.0 / 9.0)), 675);
    assert_eq!(Camera::image_height_for(&Ieee, 100, s(1.0)), 100);
    assert_eq!(Camera::image_height_for(&Ieee, 100, s(3.0)), 33);
    assert_eq!(Camera::image_height_for(&Ieee, 10, s(1000.0)), 1);
    assert_eq!(Camera::image_height_for(&Ieee, 1, s(2.0)), 1);
    assert_eq!(Camera::image_height_for(&Ieee, 7, s(1e-12)), u32::MAX);
}

#[test]
fn invalid_configurations_are_refused() {
    let world = HittableList::new();
    let mut sampler = SeededSampler::new(0);
    let mut c = Camera::default();
    c.image_width = 0;
    assert_eq!(c.check(), Err(ConfigError::ZeroWidth));
    assert_eq!(c.init(&Ieee), Err(ConfigError::ZeroWidth));
    assert_eq!(c.render(&Ieee, &mut sampler, &world).unwrap_err(), ConfigError::ZeroWidth);
    let mut c = Camera::default();
    c.samples_per_pixel = 0;
    assert_eq!(c.init(&Ieee), Err(ConfigError::ZeroSamples));
    assert_eq!(c.render(&Ieee, &mut sampler, &world).unwrap_err(), ConfigError::ZeroSamples);
    for aspect in [-1.0, 0.0, -0.0, f64::NAN, f64::NEG_INFINITY] {
        let mut c = Camera::default();
        c.aspect_ratio = s(aspect);
        assert_eq!(c.check(), Err(ConfigError::InvalidAspectRatio));
        assert_eq!(c.init(&Ieee), Err(ConfigError::InvalidAspectRatio));
        assert_eq!(
            c.render(&Ieee, &mut sampler, &world).unwrap_err(),
            ConfigError::InvalidAspectRatio
        );
    }
    // Nothing was drawn for any of them.
    assert_eq!(next_bits(&mut sampler), next_bits(&mut SeededSampler::new(0)));
}

#[test]
fn the_first_fault_is_the_one_reported() {
    let mut c = Camera::default();
    c.image_width = 0;
    c.samples_per_pixel = 0;
    c.aspect_ratio = s(-1.0);
    assert_eq!(c.check(), Err(ConfigError::ZeroWidth));
    c.image_width = 3;
    assert_eq!(c.check(), Err(ConfigError::ZeroSamples));
    c.samples_per_pixel = 1;
    assert_eq!(c.check(), Err(ConfigError::InvalidAspectRatio));
    c.aspect_ratio = s(1e-3);
    assert_eq!(c.check(), Ok(()));
}

#[test]
fn a_refused_configuration_leaves_the_frame() {
    let mut c = Camera::default();
    assert_eq!(c.init(&Ieee), Ok(()));
    let before = seen(&c);
    c.image_width = 0;
    assert_eq!(c.init(&Ieee), Err(ConfigError::ZeroWidth));
    assert_eq!(seen(&c), before);
}

#[test]
fn zero_bounces_are_allowed() {
    let mut c = Camera::default();
    c.max_depth = 0;
    c.image_width = 3;
    c.samples_per_pixel = 2;
    let image = c.render(&Ieee, &mut SeededSampler::new(1), &one_grey_sphere()).unwrap();
    assert_eq!(image.pixels.len(), 9);
    assert!(image.pixels.iter().all(|p| *p == Rgb { r: 0, g: 0, b: 0 }));
}

#[test]
fn errors_describe_themselves() {
    assert_eq!(ConfigError::ZeroWidth.describe(), "image width must be at least one pixel");
    assert_eq!(ConfigError::ZeroSamples.describe(), "samples per pixel must be at least one");
    assert_eq!(
        ConfigError::InvalidAspectRatio.describe(),
        "aspect ratio must be a number above zero"
    );
}

#[test]
fn ray_color_with_no_bounce_left_is_black() {
    let mut c = Camera::default();
    assert_eq!(c.init(&Ieee), Ok(()));
    let mut sampler = SeededSampler::new(3);
    let empty = HittableList::new();
    let world = one_grey_sphere();
    let rays = [
        Ray::new(Vec3::zero(), v(0.0, 0.0, -1.0)),
        Ray::new(Vec3::zero(), v(0.0, 1.0, 0.0)),
        Ray::new(v(1.0, 2.0, 3.0), v(-0.3, 0.2, 0.9)),
        Ray::new(Vec3::zero(), Vec3::zero()),
        Ray::new(v(f64::NAN, 0.0, 0.0), v(f64::INFINITY, 0.0, 0.0)),
    ];
    for r in rays.iter() {
        assert_eq!(c.ray_color(&Ieee, &mut sampler, r, 0, &world), Vec3::zero());
        assert_eq!(c.ray_color(&Ieee, &mut sampler, r, 0, &empty), Vec3::zero());
    }
    // Nothing was drawn.
    assert_eq!(next_bits(&mut sampler), next_bits(&mut SeededSampler::new(3)));
}

#[test]
fn sky_is_blue_above_and_white_below() {
    let mut c = Camera::default();
    assert_eq!(c.init(&Ieee), Ok(()));
    let mut sampler = SeededSampler::new(3);
    let empty = HittableList::new();
    let up = Ray::new(Vec3::zero(), v(0.0, 1.0, 0.0));
    let down = Ray::new(Vec3::zero(), v(0.0, -1.0, 0.0));
    for depth in [1, 2, 50] {
        assert_eq!(xyz(c.ray_color(&Ieee, &mut sampler, &up, depth, &empty)), (0.5, 0.7, 1.0));
        assert_eq!(xyz(c.ray_color(&Ieee, &mut sampler, &down, depth, &empty)), (1.0, 1.0, 1.0));
    }
    assert_eq!(xyz(Camera::sky(&Ieee, &up)), (0.5, 0.7, 1.0));
    assert_eq!(xyz(Camera::sky(&Ieee, &down)), (1.0, 1.0, 1.0));
    // The length of the direction does not matter.
    let far_up = Ray::new(v(4.0, 4.0, 4.0), v(0.0, 8.0, 0.0));
    assert_eq!(xyz(Camera::sky(&Ieee, &far_up)), (0.5, 0.7, 1.0));
    // Level with the horizon, halfway.
    let level = Ray::new(Vec3::zero(), v(1.0, 0.0, 0.0));
    assert_eq!(xyz(Camera::sky(&Ieee, &level)), (0.75, 0.85, 1.0));
}

#[test]
fn a_missed_world_shows_the_sky() {
    let mut c = Camera::default();
    assert_eq!(c.init(&Ieee), Ok(()));
    let mut sampler = SeededSampler::new(3);
    let up = Ray::new(Vec3::zero(), v(0.0, 1.0, 0.0));
    assert_eq!(xyz(c.ray_color(&Ieee, &mut sampler, &up, 5, &one_grey_sphere())), (0.5, 0.7, 1.0));
}

#[test]
fn attenuation_multiplies_along_the_path() {
    let mut c = Camera::default();
    assert_eq!(c.init(&Ieee), Ok(()));
    let world = one_grey_sphere();
    let at_it = Ray::new(Vec3::zero(), v(0.0, 0.0, -1.0));
    // One bounce: the scattered ray brings black.
    let mut sampler = SeededSampler::new(8);
    assert_eq!(c.ray_color(&Ieee, &mut sampler, &at_it, 1, &world), Vec3::zero());
    // Two bounces off a convex body: half of the sky in the scattered direction.
    let mut replay = Replay::of(&[0.5, 0.75, 0.5]);
    let got = c.ray_color(&Ieee, &mut replay, &at_it, 2, &world);
    // The random direction is (0, 1, 0); the normal is (0, 0, 1).
    let scattered = Ray::new(v(0.0, 0.0, -0.5), v(0.0, 1.0, 1.0));
    let sky = Camera::sky(&Ieee, &scattered);
    assert_eq!(got, v(0.5, 0.5, 0.5).mul(&Ieee, sky));
}

#[test]
fn an_absorbed_ray_is_black_not_sky() {
    let mut c = Camera::default();
    assert_eq!(c.init(&Ieee), Ok(()));
    let mut world = HittableList::new();
    world.add(sphere(0.0, -100.0, 0.0, 100.0, Material::Metal(Metal::new(v(1.0, 1.0, 1.0), s(1.0)))));
    // A grazing ray whose reflection is bent into the ground.
    let r = Ray::new(v(-10.0, 0.01, 0.0), v(10.0, -0.01, 0.0));
    let mut down = Replay::of(&[0.5, 0.25, 0.5]);
    assert_eq!(c.ray_color(&Ieee, &mut down, &r, 10, &world), Vec3::zero());
    let mut up = Replay::of(&[0.5, 0.75, 0.5]);
    assert_ne!(c.ray_color(&Ieee, &mut up, &r, 10, &world), Vec3::zero());
}

#[test]
fn glass_passes_the_sky_on_unattenuated() {
    let mut c = Camera::default();
    assert_eq!(c.init(&Ieee), Ok(()));
    let mut world = HittableList::new();
    world.add(sphere(0.0, 0.0, -3.0, 1.0, Material::Dielectric(Dielectric::new(s(1.0)))));
    let r = Ray::new(Vec3::zero(), v(0.0, 0.0, -1.0));
    let mut sampler = SeededSampler::new(4);
    let got = c.ray_color(&Ieee, &mut sampler, &r, 10, &world);
    assert_eq!(got, Camera::sky(&Ieee, &r));
    // Two surfaces are crossed: with two bounces only, the light is lost.
    assert_eq!(c.ray_color(&Ieee, &mut sampler, &r, 2, &world), Vec3::zero());
    assert_eq!(c.ray_color(&Ieee, &mut sampler, &r, 3, &world), Camera::sky(&Ieee, &r));
}

#[test]
fn pixel_sample_square_is_half_a_pixel_wide() {
    let c = Camera::default();
    let mut replay = Replay::of(&[0.0, 0.75]);
    assert_eq!(xyz(c.pixel_sample_square(&Ieee, &mut replay)), (-0.5, 0.25, 0.0));
    let mut sampler = SeededSampler::new(6);
    for _ in 0..300 {
        let (x, y, z) = xyz(c.pixel_sample_square(&Ieee, &mut sampler));
        assert!((-0.5..0.5).contains(&x) && (-0.5..0.5).contains(&y) && z == 0.0);
    }
}

#[test]
fn rays_start_at_the_centre_without_defocus() {
    let mut c = Camera::default();
    c.image_width = 4;
    assert_eq!(c.init(&Ieee), Ok(()));
    // No jitter: the ray goes through the centre of the pixel.
    let mut replay = Replay::of(&[0.5]);
    let r = c.get_ray(&Ieee, &mut replay, 0, 0);
    assert_eq!(r.origin(), c.lookfrom);
    assert!(near(r.direction(), -7.5, 7.5, -10.0));
    let r = c.get_ray(&Ieee, &mut replay, 3, 1);
    assert!(near(r.direction(), 7.5, 2.5, -10.0));
    assert_eq!(replay.next, 4);
    // Full jitter to the upper left.
    let mut corner = Replay::of(&[0.0]);
    let r = c.get_ray(&Ieee, &mut corner, 2, 2);
    assert!(near(r.direction(), 0.0, 0.0, -10.0));
    // A negative angle counts as none.
    c.defocus_angle = s(-3.0);
    assert_eq!(c.init(&Ieee), Ok(()));
    let mut sampler = SeededSampler::new(2);
    for _ in 0..50 {
        assert_eq!(c.get_ray(&Ieee, &mut sampler, 1, 1).origin(), c.lookfrom);
    }
}

#[test]
fn rays_start_on_the_defocus_disk() {
    let mut c = Camera::default();
    c.image_width = 4;
    c.defocus_angle = s(10.0);
    c.lookfrom = v(1.0, 2.0, 3.0);
    c.lookat = v(1.0, 2.0, 2.0);
    assert_eq!(c.init(&Ieee), Ok(()));
    let radius = 10.0 * (5.0f64.to_radians()).tan();
    let mut sampler = SeededSampler::new(2);
    let mut off_centre = false;
    for _ in 0..200 {
        let r = c.get_ray(&Ieee, &mut sampler, 1, 2);
        let (x, y, z) = xyz(r.origin().sub(&Ieee, c.lookfrom));
        assert!(z.abs() < 1e-12);
        assert!((x * x + y * y).sqrt() < radius);
        off_centre = off_centre || x != 0.0 || y != 0.0;
        // Whatever the origin, the ray passes through the pixel on the focus plane.
        let through = r.at(&Ieee, s(1.0));
        let (px, py, pz) = xyz(through.sub(&Ieee, c.lookfrom));
        assert!((-5.0..0.0).contains(&px) && (-5.0..0.0).contains(&py) && (pz + 10.0).abs() < 1e-9);
    }
    assert!(off_centre);
    // The disk point (0.5, -0.5) picks centre + 0.5 u - 0.5 v.
    let mut replay = Replay::of(&[0.5, 0.5, 0.75, 0.25]);
    let r = c.get_ray(&Ieee, &mut replay, 0, 0);
    assert!(near(r.origin(), 1.0 + 0.5 * radius, 2.0 - 0.5 * radius, 3.0));
    let p = c.defocus_disk_sample(&Ieee, &mut Replay::of(&[0.75, 0.25]));
    assert!(near(p, 1.0 + 0.5 * radius, 2.0 - 0.5 * radius, 3.0));
    // Candidates outside the disk are passed over: (0.998, 0.998) twice,
    // then (0.5, -0.5).
    let mut late = Replay::of(&[0.999, 0.999, 0.999, 0.999, 0.75, 0.25]);
    let p = c.defocus_disk_sample(&Ieee, &mut late);
    assert!(near(p, 1.0 + 0.5 * radius, 2.0 - 0.5 * radius, 3.0));
    assert_eq!(late.next, 6);
}

#[test]
fn render_fills_rows_from_the_top() {
    let mut c = Camera::default();
    c.image_width = 6;
    c.aspect_ratio = s(1.5);
    c.samples_per_pixel = 3;
    c.max_depth = 4;
    let image = c.render(&Ieee, &mut SeededSampler::new(12), &HittableList::new()).unwrap();
    assert_eq!((image.width, image.height), (6, 4));
    assert_eq!(image.pixels.len(), 24);
    // The sky gets bluer, so less red, from the bottom row to the top.
    for row in 0..3 {
        for col in 0..6 {
            assert!(image.pixels[row * 6 + col].r < image.pixels[(row + 1) * 6 + col].r);
            assert_eq!(image.pixels[row * 6 + col].b, 255);
        }
    }
    // Along a row the sky is the same left and right of the middle, within jitter.
    for row in 0..4 {
        let left = image.pixels[row * 6].r as i32;
        let right = image.pixels[row * 6 + 5].r as i32;
        assert!((left - right).abs() <= 12);
    }
}

#[test]
fn render_puts_a_sphere_where_it_is() {
    // A black ball to the upper left shows in the first pixel only.
    let mut world = HittableList::new();
    world.add(sphere(-7.5, 7.5, -10.0, 2.6, Material::Lambertian(Lambertian::new(v(0.0, 0.0, 0.0)))));
    let mut c = Camera::default();
    c.image_width = 4;
    c.samples_per_pixel = 8;
    c.max_depth = 5;
    let image = c.render(&Ieee, &mut SeededSampler::new(5), &world).unwrap();
    assert_eq!(image.pixels.len(), 16);
    assert_eq!(image.pixels[0], Rgb { r: 0, g: 0, b: 0 });
    for k in 1..16 {
        assert_eq!(image.pixels[k].b, 255, "pixel {}", k);
    }
}

#[test]
fn two_by_two_scene_is_bounded_by_the_sky() {
    let world = one_grey_sphere();
    let mut c = Camera::default();
    c.image_width = 2;
    c.samples_per_pixel = 1;
    c.max_depth = 1;
    for seed in 0..40 {
        let image = c.render(&Ieee, &mut SeededSampler::new(seed), &world).unwrap();
        assert_eq!((image.width, image.height), (2, 2));
        assert_eq!(image.pixels.len(), 4);
        for p in image.pixels.iter() {
            // With one bounce a pixel shows the sky or nothing.
            let black = *p == Rgb { r: 0, g: 0, b: 0 };
            let sky = p.b == 255 && p.g >= 214 && p.r >= 181 && p.r <= p.g;
            assert!(black || sky, "{:?}", p);
        }
        let again = c.render(&Ieee, &mut SeededSampler::new(seed), &world).unwrap();
        assert_eq!(image.pixels, again.pixels);
    }
}

#[test]
fn render_twice_gives_the_same_image() {
    let mut world = HittableList::new();
    world.add(sphere(0.0, -100.5, -1.0, 100.0, Material::Lambertian(Lambertian::new(v(0.8, 0.8, 0.0)))));
    world.add(sphere(0.0, 0.0, -1.2, 0.5, Material::Lambertian(Lambertian::new(v(0.1, 0.2, 0.5)))));
    world.add(sphere(-1.0, 0.0, -1.0, 0.5, Material::Dielectric(Dielectric::new(s(1.5)))));
    world.add(sphere(-1.0, 0.0, -1.0, 0.4, Material::Dielectric(Dielectric::new(s(1.0 / 1.5)))));
    world.add(sphere(1.0, 0.0, -1.0, 0.5, Material::Metal(Metal::new(v(0.8, 0.6, 0.2), s(1.0)))));
    let mut c = Camera::default();
    c.aspect_ratio = s(16.0 / 9.0);
    c.image_width = 32;
    c.samples_per_pixel = 8;
    c.max_depth = 12;
    c.vfov = s(20.0);
    c.lookfrom = v(-2.0, 2.0, 1.0);
    c.lookat = v(0.0, 0.0, -1.0);
    c.defocus_angle = s(3.0);
    c.focus_dist = s(3.4);
    let first = c.render(&Ieee, &mut SeededSampler::new(99), &world).unwrap();
    let second = c.render(&Ieee, &mut SeededSampler::new(99), &world).unwrap();
    assert_eq!((first.width, first.height), (32, 18));
    assert_eq!(first.pixels, second.pixels);
    let other = c.render(&Ieee, &mut SeededSampler::new(100), &world).unwrap();
    assert_ne!(first.pixels, other.pixels);
    // The scene is not one flat colour.
    assert!(first.pixels.iter().any(|p| *p != first.pixels[0]));
}

#[test]
fn a_pixel_is_what_render_puts_in_its_place() {
    let mut world = HittableList::new();
    world.add(sphere(0.0, -100.5, -1.0, 100.0, Material::Lambertian(Lambertian::new(v(0.8, 0.8, 0.0)))));
    world.add(sphere(0.0, 0.0, -1.2, 0.5, Material::Metal(Metal::new(v(0.8, 0.6, 0.2), s(0.3)))));
    let mut c = Camera::default();
    c.image_width = 5;
    c.aspect_ratio = s(5.0 / 3.0);
    c.samples_per_pixel = 6;
    c.max_depth = 8;
    c.focus_dist = s(1.0);
    let image = c.render(&Ieee, &mut SeededSampler::new(21), &world).unwrap();
    assert_eq!((image.width, image.height), (5, 3));
    // The same pixels one by one, row by row, from the same source.
    let mut source = SeededSampler::new(21);
    for j in 0..3u32 {
        for i in 0..5u32 {
            let rgb = c.pixel(&Ieee, &mut source, i, j, &world);
            assert_eq!(rgb, image.pixels[(j * 5 + i) as usize], "pixel ({}, {})", i, j);
        }
    }
}

#[test]
fn render_from_a_replayed_source_repeats() {
    let world = one_grey_sphere();
    let mut c = Camera::default();
    c.image_width = 8;
    c.samples_per_pixel = 4;
    c.max_depth = 6;
    c.focus_dist = s(1.0);
    let units = [0.11, 0.93, 0.42, 0.67, 0.05, 0.58, 0.31, 0.79, 0.24, 0.86, 0.49];
    let mut first_source = Replay::of(&units);
    let first = c.render(&Ieee, &mut first_source, &world).unwrap();
    let mut second_source = Replay::of(&units);
    let second = c.render(&Ieee, &mut second_source, &world).unwrap();
    assert_eq!(first.pixels, second.pixels);
    // Both runs drew the same number of times.
    assert_eq!(first_source.next, second_source.next);
    assert!(first_source.next >= 2 * 4 * 64);
}

#[test]
fn new_sets_every_field() {
    let c = Camera::new(
        s(1.5),
        6,
        3,
        4,
        s(40.0),
        v(1.0, 2.0, 3.0),
        v(1.0, 2.0, 2.0),
        v(0.0, 1.0, 0.0),
        s(0.5),
        s(2.0),
    );
    assert_eq!(f(c.aspect_ratio), 1.5);
    assert_eq!((c.image_width, c.samples_per_pixel, c.max_depth), (6, 3, 4));
    assert_eq!(f(c.vfov), 40.0);
    assert_eq!(xyz(c.lookfrom), (1.0, 2.0, 3.0));
    assert_eq!(xyz(c.lookat), (1.0, 2.0, 2.0));
    assert_eq!(xyz(c.vup), (0.0, 1.0, 0.0));
    assert_eq!(f(c.defocus_angle), 0.5);
    assert_eq!(f(c.focus_dist), 2.0);
    // It renders as a default camera set to the same does.
    let mut a = c;
    let mut b = Camera::default();
    b.aspect_ratio = s(1.5);
    b.image_width = 6;
    b.samples_per_pixel = 3;
    b.max_depth = 4;
    b.vfov = s(40.0);
    b.lookfrom = v(1.0, 2.0, 3.0);
    b.lookat = v(1.0, 2.0, 2.0);
    b.defocus_angle = s(0.5);
    b.focus_dist = s(2.0);
    let world = one_grey_sphere();
    let first = a.render(&Ieee, &mut SeededSampler::new(3), &world).unwrap();
    let second = b.render(&Ieee, &mut SeededSampler::new(3), &world).unwrap();
    assert_eq!((first.width, first.height), (6, 4));
    assert_eq!(first.pixels, second.pixels);
}
