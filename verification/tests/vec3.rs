use raytracer::modules::arithmetic::Arithmetic;
use raytracer::modules::sampler::{Sampler, SeededSampler};
use raytracer::modules::scalar::Scalar;
use raytracer::modules::vec3::{
    accepts_direction, random, random_in_range, random_in_unit_disk, random_on_hemisphere,
    random_unit_vector, reflect, refract, toward, Vec3, REFUSAL_LIMIT,
};

struct Ieee;

fn s(x: f64) -> Scalar {
    Scalar::from_bits(x.to_bits())
}

fn f(x: Scalar) -> f64 {
    f64::from_bits(x.to_bits())
}

impl Arithmetic for Ieee {
    fn sum(&self, a: Scalar, b: Scalar) -> Scalar {
        s(f(a) + f(b))
    }

    fn difference(&self, a: Scalar, b: Scalar) -> Scalar {
        s(f(a) - f(b))
    }

    fn product(&self, a: Scalar, b: Scalar) -> Scalar {
        s(f(a) * f(b))
    }

    fn quotient(&self, a: Scalar, b: Scalar) -> Scalar {
        s(f(a) / f(b))
    }

    fn square_root(&self, a: Scalar) -> Scalar {
        s(f(a).sqrt())
    }

    fn tangent(&self, a: Scalar) -> Scalar {
        s(f(a).tan())
    }
}

fn v(x: f64, y: f64, z: f64) -> Vec3 {
    Vec3::new(s(x), s(y), s(z))
}

fn xyz(a: Vec3) -> (f64, f64, f64) {
    (f(a.x()), f(a.y()), f(a.z()))
}

fn close(a: f64, b: f64) -> bool {
    (a - b).abs() <= 1e-12 * (1.0 + a.abs().max(b.abs()))
}

/// A sampler that replays a fixed list of draws, over and over.
struct Replay {
    draws: Vec<u64>,
    next: usize,
}

impl Replay {
    fn of(units: &[f64]) -> Replay {
        // The draw whose high 53 bits stand for `u`.
        let draws = units.iter().map(|u| ((u * 9007199254740992.0) as u64) << 11).collect();
        Replay { draws, next: 0 }
    }
}

impl Sampler for Replay {
    fn draw(&self) -> (u64, Replay) {
        let d = self.draws[self.next % self.draws.len()];
        (d, Replay { draws: self.draws.clone(), next: self.next + 1 })
    }
}

#[test]
fn constructors_and_getters() {
    let a = v(1.0, -2.0, 3.5);
    assert_eq!(xyz(a), (1.0, -2.0, 3.5));
    assert_eq!(xyz(Vec3::zero()), (0.0, 0.0, 0.0));
    assert_eq!(Vec3::default(), Vec3::zero());
    assert_eq!(Vec3::zero().x().to_bits(), 0);
}

#[test]
fn componentwise_arithmetic() {
    let a = v(1.0, 2.0, 3.0);
    let b = v(4.0, -5.0, 0.5);
    assert_eq!(xyz(a.add(&Ieee, b)), (5.0, -3.0, 3.5));
    assert_eq!(xyz(a.sub(&Ieee, b)), (-3.0, 7.0, 2.5));
    assert_eq!(xyz(a.mul(&Ieee, b)), (4.0, -10.0, 1.5));
    assert_eq!(xyz(a.scale(&Ieee, s(-2.0))), (-2.0, -4.0, -6.0));
    assert_eq!(xyz(a.div(&Ieee, s(4.0))), (0.25, 0.5, 0.75));
    assert_eq!(xyz(a.neg()), (-1.0, -2.0, -3.0));
    assert_eq!(Vec3::zero().neg().x().to_bits(), (-0.0f64).to_bits());
}

#[test]
fn division_multiplies_by_the_inverse() {
    // 1/3 is rounded before the products are taken.
    let a = v(3.0, 1.0, 9.0).div(&Ieee, s(3.0));
    let k = 1.0 / 3.0;
    assert_eq!(xyz(a), (k * 3.0, k * 1.0, k * 9.0));
}

#[test]
fn assignments_in_place() {
    let mut a = v(1.0, 2.0, 3.0);
    a.add_assign(&Ieee, v(0.5, 0.5, 0.5));
    assert_eq!(xyz(a), (1.5, 2.5, 3.5));
    a.mul_assign(&Ieee, s(2.0));
    assert_eq!(xyz(a), (3.0, 5.0, 7.0));
    a.div_assign(&Ieee, s(4.0));
    assert_eq!(xyz(a), (0.75, 1.25, 1.75));
}

#[test]
fn dot_cross_and_length() {
    let a = v(1.0, 2.0, 3.0);
    let b = v(4.0, -5.0, 6.0);
    assert_eq!(f(a.dot(&Ieee, &b)), 12.0);
    assert_eq!(xyz(a.cross(&Ieee, b)), (27.0, 6.0, -13.0));
    assert_eq!(xyz(v(1.0, 0.0, 0.0).cross(&Ieee, v(0.0, 1.0, 0.0))), (0.0, 0.0, 1.0));
    assert_eq!(f(v(3.0, 4.0, 12.0).length_squared(&Ieee)), 169.0);
    assert_eq!(f(v(3.0, 4.0, 12.0).length(&Ieee)), 13.0);
}

#[test]
fn unit_vector_has_length_one() {
    let u = v(3.0, 4.0, 0.0).unit_vector(&Ieee);
    assert!(close(f(u.x()), 0.6) && close(f(u.y()), 0.8) && f(u.z()) == 0.0);
    assert!(close(f(u.length(&Ieee)), 1.0));
    assert_eq!(xyz(v(0.0, 1.0, 0.0).unit_vector(&Ieee)), (0.0, 1.0, 0.0));
}

#[test]
fn unit_vector_of_zero_is_not_a_number() {
    let u = Vec3::zero().unit_vector(&Ieee);
    assert!(u.x().is_nan() && u.y().is_nan() && u.z().is_nan());
}

#[test]
fn near_zero_is_strict_in_every_dimension() {
    assert!(Vec3::zero().near_zero());
    assert!(v(9.9e-9, -9.9e-9, 0.0).near_zero());
    assert!(!v(1e-8, 0.0, 0.0).near_zero());
    assert!(!v(0.0, -1e-8, 0.0).near_zero());
    assert!(!v(0.0, 0.0, 1.0).near_zero());
    assert!(!v(f64::NAN, 0.0, 0.0).near_zero());
}

#[test]
fn reflect_mirrors_about_the_normal() {
    assert_eq!(xyz(reflect(&Ieee, v(1.0, -1.0, 0.0), v(0.0, 1.0, 0.0))), (1.0, 1.0, 0.0));
    assert_eq!(xyz(reflect(&Ieee, v(0.0, 0.0, -1.0), v(0.0, 0.0, 1.0))), (0.0, 0.0, 1.0));
    // A direction along the surface is left alone.
    assert_eq!(xyz(reflect(&Ieee, v(2.0, 0.0, 0.0), v(0.0, 1.0, 0.0))), (2.0, 0.0, 0.0));
}

#[test]
fn reflect_preserves_length() {
    let normals = [
        v(0.0, 1.0, 0.0),
        v(1.0, 0.0, 0.0),
        v(0.6, 0.8, 0.0),
        v(1.0, 2.0, -2.0).unit_vector(&Ieee),
        v(-3.0, 0.5, 7.0).unit_vector(&Ieee),
    ];
    let vectors = [
        v(1.0, -1.0, 0.0),
        v(0.3, 0.2, -5.0),
        v(-7.5, 1e-3, 2.0),
        v(100.0, 200.0, -300.0),
        v(0.0, 0.0, 1e-9),
    ];
    for n in normals {
        for a in vectors {
            let r = reflect(&Ieee, a, n);
            assert!(close(f(r.length(&Ieee)), f(a.length(&Ieee))));
        }
    }
}

#[test]
fn refract_goes_straight_through_equal_media() {
    let uv = v(0.6, -0.8, 0.0);
    let r = refract(&Ieee, uv, v(0.0, 1.0, 0.0), s(1.0));
    assert!(close(f(r.x()), 0.6) && close(f(r.y()), -0.8) && f(r.z()) == 0.0);
}

#[test]
fn refract_obeys_snell() {
    // Into glass of index 1.5 at 45 degrees.
    let h = 0.5f64.sqrt();
    let r = refract(&Ieee, v(h, -h, 0.0), v(0.0, 1.0, 0.0), s(1.0 / 1.5));
    let sin_out = h / 1.5;
    assert!(close(f(r.x()), sin_out));
    assert!(close(f(r.y()), -(1.0 - sin_out * sin_out).sqrt()));
    assert!(close(f(r.length(&Ieee)), 1.0));
}

#[test]
fn refract_at_normal_incidence_keeps_the_direction() {
    let r = refract(&Ieee, v(0.0, -1.0, 0.0), v(0.0, 1.0, 0.0), s(1.0 / 1.5));
    assert_eq!(f(r.x()), 0.0);
    assert_eq!(f(r.y()), -1.0);
}

#[test]
fn accepts_direction_is_open_below_and_closed_above() {
    assert!(accepts_direction(s(1.0)));
    assert!(accepts_direction(s(0.5)));
    assert!(!accepts_direction(s(1.0000000000000002)));
    assert!(!accepts_direction(s(1e-160)));
    assert!(accepts_direction(s(1.0000000000000002e-160)));
    assert!(!accepts_direction(s(0.0)));
    assert!(!accepts_direction(s(f64::NAN)));
}

#[test]
fn random_components_are_unit_draws() {
    let mut sampler = SeededSampler::new(7);
    for _ in 0..200 {
        let (x, y, z) = xyz(random(&mut sampler));
        assert!((0.0..1.0).contains(&x) && (0.0..1.0).contains(&y) && (0.0..1.0).contains(&z));
    }
}

#[test]
fn random_in_range_scales_the_draws() {
    let mut replay = Replay::of(&[0.0, 0.5, 0.75]);
    let a = random_in_range(&Ieee, &mut replay, s(-1.0), s(1.0));
    assert_eq!(xyz(a), (-1.0, 0.0, 0.5));
    let mut sampler = SeededSampler::new(11);
    for _ in 0..200 {
        let (x, y, z) = xyz(random_in_range(&Ieee, &mut sampler, s(2.0), s(5.0)));
        assert!((2.0..5.0).contains(&x) && (2.0..5.0).contains(&y) && (2.0..5.0).contains(&z));
    }
}

#[test]
fn random_unit_vector_has_length_one() {
    let mut sampler = SeededSampler::new(3);
    for _ in 0..500 {
        let u = random_unit_vector(&Ieee, &mut sampler);
        assert!(close(f(u.length(&Ieee)), 1.0));
    }
}

#[test]
fn random_unit_vector_normalises_the_first_candidate_in_the_ball() {
    // (1, 1, 1) lies outside the ball; (0.5, 0, 0) inside.
    let mut replay = Replay::of(&[0.999, 0.999, 0.999, 0.75, 0.5, 0.5]);
    let u = random_unit_vector(&Ieee, &mut replay);
    assert_eq!(xyz(u), (1.0, 0.0, 0.0));
    assert_eq!(replay.next, 6);
}

#[test]
fn random_unit_vector_goes_on_until_a_candidate_is_taken() {
    // Two hundred candidates at the corner (-1, -1, -1), two hundred at the
    // centre, too short to divide, and then (0, 0.5, 0).
    let mut units = vec![0.0; 600];
    units.extend(vec![0.5; 600]);
    units.extend([0.5, 0.75, 0.5]);
    let mut replay = Replay::of(&units);
    let u = random_unit_vector(&Ieee, &mut replay);
    assert_eq!(xyz(u), (0.0, 1.0, 0.0));
    assert_eq!(replay.next, 1203);
    assert_eq!(REFUSAL_LIMIT, u64::MAX);
}

#[test]
fn toward_reverses_unless_the_cosine_is_positive() {
    let d = v(1.0, 2.0, 3.0);
    assert_eq!(toward(d, s(0.1)), d);
    assert_eq!(toward(d, s(0.0)), d.neg());
    assert_eq!(toward(d, s(-0.1)), d.neg());
    assert_eq!(toward(d, s(f64::NAN)), d.neg());
}

#[test]
fn random_on_hemisphere_points_with_the_normal() {
    let mut sampler = SeededSampler::new(5);
    let n = v(0.0, 0.0, 1.0);
    for _ in 0..500 {
        let u = random_on_hemisphere(&Ieee, &mut sampler, n);
        assert!(f(u.dot(&Ieee, &n)) >= 0.0);
        assert!(close(f(u.length(&Ieee)), 1.0));
    }
    // The direction (0, 0, -1) is turned round, (0, 0, 1) is kept.
    let mut below = Replay::of(&[0.5, 0.5, 0.25]);
    assert_eq!(xyz(random_on_hemisphere(&Ieee, &mut below, n)), (0.0, 0.0, 1.0));
    let mut above = Replay::of(&[0.5, 0.5, 0.75]);
    assert_eq!(xyz(random_on_hemisphere(&Ieee, &mut above, n)), (0.0, 0.0, 1.0));
}

#[test]
fn random_in_unit_disk_lies_in_the_disk() {
    let mut sampler = SeededSampler::new(9);
    for _ in 0..500 {
        let p = random_in_unit_disk(&Ieee, &mut sampler);
        assert_eq!(f(p.z()), 0.0);
        assert!(f(p.length_squared(&Ieee)) < 1.0);
    }
    // (1 - eps, 1 - eps) lies outside; (0.5, -0.5) inside.
    let mut replay = Replay::of(&[0.999, 0.999, 0.75, 0.25]);
    let p = random_in_unit_disk(&Ieee, &mut replay);
    assert_eq!(xyz(p), (0.5, -0.5, 0.0));
    // Three hundred candidates at the corner (-1, -1), then (0.5, 0).
    let mut units = vec![0.0; 600];
    units.extend([0.75, 0.5]);
    let mut late = Replay::of(&units);
    assert_eq!(xyz(random_in_unit_disk(&Ieee, &mut late)), (0.5, 0.0, 0.0));
    assert_eq!(late.next, 602);
}
