use raytracer::modules::arithmetic::Arithmetic;
use raytracer::modules::interval::Interval;
use raytracer::modules::ray::Ray;
use raytracer::modules::sampler::{next_bits, Sampler, SeededSampler, ThreadSampler};
use raytracer::modules::scalar::Scalar;
use raytracer::modules::utils::{
    degrees_to_radians, random_double, random_double_range, INFINITY, PI,
};
use raytracer::modules::vec3::Vec3;
use rand::rngs::StdRng;
use rand::{Rng, SeedableRng};

struct Ieee;

fn s(x: f64) -> Scalar {
    Scalar::from_bits(x.to_bits())
}

fn f(x: Scalar) -> f64 {
    f64::from_bits(x.to_bits())
}

impl Arithmetic for Ieee {
    fn sum(&self, a: Scalar, b: Scalar) -> Scalar {
        s(f(a) + f(b))
    }

    fn difference(&self, a: Scalar, b: Scalar) -> Scalar {
        s(f(a) - f(b))
    }

    fn product(&self, a: Scalar, b: Scalar) -> Scalar {
        s(f(a) * f(b))
    }

    fn quotient(&self, a: Scalar, b: Scalar) -> Scalar {
        s(f(a) / f(b))
    }

    fn square_root(&self, a: Scalar) -> Scalar {
        s(f(a).sqrt())
    }

    fn tangent(&self, a: Scalar) -> Scalar {
        s(f(a).tan())
    }
}

fn v(x: f64, y: f64, z: f64) -> Vec3 {
    Vec3::new(s(x), s(y), s(z))
}

fn xyz(a: Vec3) -> (f64, f64, f64) {
    (f(a.x()), f(a.y()), f(a.z()))
}

fn close(a: f64, b: f64) -> bool {
    (a - b).abs() <= 1e-12 * (1.0 + a.abs().max(b.abs()))
}

/// A sampler that replays a fixed list of draws, over and over.
struct Replay {
    draws: Vec<u64>,
    next: usize,
}

impl Replay {
    fn of(units: &[f64]) -> Replay {
        // The draw whose high 53 bits stand for `u`.
        let draws = units.iter().map(|u| ((u * 9007199254740992.0) as u64) << 11).collect();
        Replay { draws, next: 0 }
    }
}

impl Sampler for Replay {
    fn draw(&self) -> (u64, Replay) {
        let d = self.draws[self.next % self.draws.len()];
        (d, Replay { draws: self.draws.clone(), next: self.next + 1 })
    }
}

#[test]
fn interval_contains_is_closed() {
    let i = Interval::new(s(1.0), s(2.0));
    assert!(i.contains(s(1.0)));
    assert!(i.contains(s(1.5)));
    assert!(i.contains(s(2.0)));
    assert!(!i.contains(s(0.9999999999999999)));
    assert!(!i.contains(s(2.0000000000000004)));
    assert!(!i.contains(s(f64::NAN)));
}

#[test]
fn interval_surrounds_is_open() {
    let i = Interval::new(s(1.0), s(2.0));
    assert!(!i.surrounds(s(1.0)));
    assert!(i.surrounds(s(1.0000000000000002)));
    assert!(i.surrounds(s(1.5)));
    assert!(!i.surrounds(s(2.0)));
    assert!(!i.surrounds(s(f64::NAN)));
    let from_bias = Interval::new(s(0.001), s(f64::INFINITY));
    assert!(!from_bias.surrounds(s(0.001)));
    assert!(!from_bias.surrounds(s(0.0)));
    assert!(from_bias.surrounds(s(0.0010000000000000002)));
    assert!(from_bias.surrounds(s(1e300)));
    assert!(!from_bias.surrounds(s(f64::INFINITY)));
}

#[test]
fn interval_size_is_max_minus_min() {
    assert_eq!(f(Interval::new(s(1.0), s(3.5)).size(&Ieee)), 2.5);
    assert_eq!(f(Interval::new(s(3.0), s(1.0)).size(&Ieee)), -2.0);
    assert_eq!(f(Interval::empty().size(&Ieee)), f64::NEG_INFINITY);
    assert_eq!(f(Interval::universe().size(&Ieee)), f64::INFINITY);
}

#[test]
fn empty_holds_nothing_and_universe_every_number() {
    let e = Interval::empty();
    let u = Interval::universe();
    assert_eq!(f(e.min), f64::INFINITY);
    assert_eq!(f(e.max), f64::NEG_INFINITY);
    assert_eq!(Interval::default(), e);
    for x in [0.0, -1.0, 1e308, -1e308, f64::INFINITY, f64::NEG_INFINITY, 5e-324] {
        assert!(!e.contains(s(x)));
        assert!(!e.surrounds(s(x)));
        assert!(u.contains(s(x)));
    }
    assert!(u.surrounds(s(0.0)));
    assert!(!u.surrounds(s(f64::INFINITY)));
    assert!(!u.contains(s(f64::NAN)));
}

#[test]
fn ray_getters_and_default() {
    let r = Ray::new(v(1.0, 2.0, 3.0), v(0.0, 0.0, -1.0));
    assert_eq!(xyz(r.origin()), (1.0, 2.0, 3.0));
    assert_eq!(xyz(r.direction()), (0.0, 0.0, -1.0));
    let d = Ray::default();
    assert_eq!(d.origin(), Vec3::zero());
    assert_eq!(d.direction(), Vec3::zero());
}

#[test]
fn ray_at_is_origin_plus_t_times_direction() {
    let r = Ray::new(v(1.0, 2.0, 3.0), v(2.0, 0.0, -4.0));
    assert_eq!(xyz(r.at(&Ieee, s(0.0))), (1.0, 2.0, 3.0));
    assert_eq!(xyz(r.at(&Ieee, s(1.0))), (3.0, 2.0, -1.0));
    assert_eq!(xyz(r.at(&Ieee, s(-0.5))), (0.0, 2.0, 5.0));
    assert_eq!(xyz(r.at(&Ieee, s(2.5))), (6.0, 2.0, -7.0));
}

#[test]
fn constants_are_the_patterns_of_infinity_and_pi() {
    assert_eq!(f64::from_bits(INFINITY), f64::INFINITY);
    assert_eq!(f64::from_bits(PI), std::f64::consts::PI);
}

#[test]
fn degrees_to_radians_multiplies_first() {
    assert_eq!(f(degrees_to_radians(&Ieee, s(180.0))), std::f64::consts::PI);
    assert_eq!(f(degrees_to_radians(&Ieee, s(90.0))), 90.0 * std::f64::consts::PI / 180.0);
    assert_eq!(f(degrees_to_radians(&Ieee, s(0.0))), 0.0);
    assert_eq!(f(degrees_to_radians(&Ieee, s(20.0))), 20.0 * std::f64::consts::PI / 180.0);
    assert_eq!(f(degrees_to_radians(&Ieee, s(-45.0))), -45.0 * std::f64::consts::PI / 180.0);
}

#[test]
fn random_double_is_the_draw_of_the_generator() {
    // The seeded sampler hands out what the generator's own unit
    // distribution would make of the same stream.
    let mut sampler = SeededSampler::new(42);
    let mut generator = StdRng::seed_from_u64(42);
    for _ in 0..1000 {
        let want: f64 = generator.gen();
        assert_eq!(f(random_double(&mut sampler)), want);
    }
}

#[test]
fn seeded_samplers_with_one_seed_agree() {
    let mut a = SeededSampler::new(2024);
    let mut b = SeededSampler::new(2024);
    let mut c = SeededSampler::new(2025);
    let mut differs = false;
    for _ in 0..64 {
        let x = next_bits(&mut a);
        assert_eq!(x, next_bits(&mut b));
        differs = differs || x != next_bits(&mut c);
    }
    assert!(differs);
}

#[test]
fn a_draw_leaves_the_seeded_source_as_it_was() {
    let source = SeededSampler::new(31);
    let (first, after_first) = source.draw();
    let (again, _) = source.draw();
    assert_eq!(first, again);
    let (second, _) = after_first.draw();
    let (second_again, _) = after_first.draw();
    assert_eq!(second, second_again);
    assert_ne!(first, second);
    // Moving a source on is drawing from it and keeping what the draw leaves.
    let mut moving = SeededSampler::new(31);
    assert_eq!(next_bits(&mut moving), first);
    assert_eq!(next_bits(&mut moving), second);
}

#[test]
fn seeded_sampler_does_not_hand_its_seed_back() {
    let mut a = SeededSampler::new(5);
    let first = next_bits(&mut a);
    let second = next_bits(&mut a);
    assert_ne!(first, 5);
    assert_ne!(first, second);
}

#[test]
fn thread_sampler_draws_unit_numbers() {
    let mut sampler = ThreadSampler::new();
    let first = next_bits(&mut sampler);
    let mut varies = false;
    for _ in 0..1000 {
        let x = f(random_double(&mut sampler));
        assert!((0.0..1.0).contains(&x));
        varies = varies || next_bits(&mut sampler) != first;
    }
    assert!(varies);
    // The thread's generator does not hand out its bits again.
    let (a, _) = sampler.draw();
    let (b, _) = sampler.draw();
    let (c, _) = sampler.draw();
    assert!(a != b || b != c);
}

#[test]
fn random_double_range_is_min_plus_span_times_draw() {
    let mut replay = Replay::of(&[0.0, 0.25, 0.5]);
    assert_eq!(f(random_double_range(&Ieee, &mut replay, s(2.0), s(6.0))), 2.0);
    assert_eq!(f(random_double_range(&Ieee, &mut replay, s(2.0), s(6.0))), 3.0);
    assert_eq!(f(random_double_range(&Ieee, &mut replay, s(-1.0), s(1.0))), 0.0);
    let mut sampler = SeededSampler::new(1);
    for _ in 0..500 {
        let x = f(random_double_range(&Ieee, &mut sampler, s(-0.5), s(0.5)));
        assert!((-0.5..0.5).contains(&x));
    }
}
