use raytracer::modules::arithmetic::Arithmetic;
use raytracer::modules::color::{clamp_channel, linear_to_gamma, quantize, write_channel, write_color, Rgb};
use raytracer::modules::scalar::Scalar;
use raytracer::modules::vec3::Vec3;

struct Ieee;

fn s(x: f64) -> Scalar {
    Scalar::from_bits(x.to_bits())
}

fn f(x: Scalar) -> f64 {
    f64::from_bits(x.to_bits())
}

impl Arithmetic for Ieee {
    fn sum(&self, a: Scalar, b: Scalar) -> Scalar {
        s(f(a) + f(b))
    }

    fn difference(&self, a: Scalar, b: Scalar) -> Scalar {
        s(f(a) - f(b))
    }

    fn product(&self, a: Scalar, b: Scalar) -> Scalar {
        s(f(a) * f(b))
    }

    fn quotient(&self, a: Scalar, b: Scalar) -> Scalar {
        s(f(a) / f(b))
    }

    fn square_root(&self, a: Scalar) -> Scalar {
        s(f(a).sqrt())
    }

    fn tangent(&self, a: Scalar) -> Scalar {
        s(f(a).tan())
    }
}

#[test]
fn linear_to_gamma_is_the_square_root_above_zero() {
    assert_eq!(f(linear_to_gamma(&Ieee, s(0.25))), 0.5);
    assert_eq!(f(linear_to_gamma(&Ieee, s(4.0))), 2.0);
    assert_eq!(f(linear_to_gamma(&Ieee, s(2.0))), 2.0f64.sqrt());
    assert_eq!(linear_to_gamma(&Ieee, s(0.0)).to_bits(), 0);
    assert_eq!(linear_to_gamma(&Ieee, s(-0.0)).to_bits(), 0);
    assert_eq!(linear_to_gamma(&Ieee, s(-4.0)).to_bits(), 0);
    assert_eq!(linear_to_gamma(&Ieee, s(f64::NAN)).to_bits(), 0);
    assert_eq!(f(linear_to_gamma(&Ieee, s(f64::INFINITY))), f64::INFINITY);
}

#[test]
fn clamp_channel_holds_to_the_top() {
    assert_eq!(f(clamp_channel(s(0.5))), 0.5);
    assert_eq!(f(clamp_channel(s(0.999))), 0.999);
    assert_eq!(f(clamp_channel(s(1.0))), 0.999);
    assert_eq!(f(clamp_channel(s(f64::INFINITY))), 0.999);
    assert_eq!(f(clamp_channel(s(-0.25))), 0.0);
    assert_eq!(f(clamp_channel(s(0.0))), 0.0);
    assert!(clamp_channel(s(f64::NAN)).is_nan());
    for x in [0.0, 0.3, 0.999, 1.0, 7.0, -3.0] {
        assert_eq!(f(clamp_channel(s(x))), x.clamp(0.0, 0.999));
    }
}

#[test]
fn quantize_cuts_to_a_byte() {
    assert_eq!(quantize(s(0.0)), 0);
    assert_eq!(quantize(s(0.999)), 0);
    assert_eq!(quantize(s(1.0)), 1);
    assert_eq!(quantize(s(127.5)), 127);
    assert_eq!(quantize(s(255.744)), 255);
    assert_eq!(quantize(s(256.0)), 255);
    assert_eq!(quantize(s(1e30)), 255);
    assert_eq!(quantize(s(-5.0)), 0);
    assert_eq!(quantize(s(f64::NAN)), 0);
}

#[test]
fn write_channel_matches_the_formula() {
    for x in [0.0, 1e-9, 0.001, 0.1, 0.25, 0.5, 0.7, 0.9, 0.998, 1.0, 1.5, 100.0, -1.0] {
        let g = if x > 0.0 { f64::sqrt(x) } else { 0.0 };
        let want = (256.0 * g.clamp(0.0, 0.999)) as u32;
        assert_eq!(write_channel(&Ieee, s(x)) as u32, want, "{}", x);
    }
}

#[test]
fn write_color_gives_known_bytes() {
    let c = Vec3::new(s(0.25), s(1.0), s(0.0));
    assert_eq!(write_color(&Ieee, c), Rgb { r: 128, g: 255, b: 0 });
    let sky = Vec3::new(s(0.5), s(0.7), s(1.0));
    assert_eq!(write_color(&Ieee, sky), Rgb { r: 181, g: 214, b: 255 });
    let odd = Vec3::new(s(-2.0), s(f64::NAN), s(9.0));
    assert_eq!(write_color(&Ieee, odd), Rgb { r: 0, g: 0, b: 255 });
}
