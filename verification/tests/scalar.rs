use raytracer::modules::scalar::Scalar;

fn s(x: f64) -> Scalar {
    Scalar::from_bits(x.to_bits())
}

fn f(x: Scalar) -> f64 {
    f64::from_bits(x.to_bits())
}

const SAMPLES: [f64; 21] = [
    0.0,
    -0.0,
    1.0,
    -1.0,
    0.5,
    -0.5,
    0.001,
    1e-8,
    1e-160,
    5e-324,
    -5e-324,
    2.2250738585072014e-308,
    1.7976931348623157e308,
    -1.7976931348623157e308,
    f64::INFINITY,
    f64::NEG_INFINITY,
    f64::NAN,
    3.5,
    255.999,
    4294967295.0,
    4294967296.0,
];

#[test]
fn comparisons_agree_with_the_machine() {
    for &a in SAMPLES.iter() {
        for &b in SAMPLES.iter() {
            assert_eq!(s(a).lt(s(b)), a < b, "{} < {}", a, b);
            assert_eq!(s(a).le(s(b)), a <= b, "{} <= {}", a, b);
            assert_eq!(s(a).gt(s(b)), a > b, "{} > {}", a, b);
            assert_eq!(s(a).ge(s(b)), a >= b, "{} >= {}", a, b);
            assert_eq!(s(a).same_number(s(b)), a == b, "{} == {}", a, b);
        }
    }
}

#[test]
fn negative_nan_is_still_nan() {
    let n = Scalar::from_bits(0xFFF8_0000_0000_0000);
    assert!(n.is_nan());
    assert!(n.is_sign_negative());
    assert!(!n.lt(s(0.0)));
    assert!(!s(0.0).lt(n));
    assert!(!n.same_number(n));
}

#[test]
fn zeros_are_the_same_number_with_different_patterns() {
    assert!(s(0.0).same_number(s(-0.0)));
    assert_ne!(s(0.0), s(-0.0));
    assert!(!s(-0.0).lt(s(0.0)));
}

#[test]
fn negation_and_abs_flip_only_the_sign() {
    for &a in SAMPLES.iter() {
        assert_eq!(s(a).negated().to_bits(), (-a).to_bits());
        assert_eq!(s(a).abs().to_bits(), a.abs().to_bits());
        assert_eq!(s(a).is_nan(), a.is_nan());
        assert_eq!(s(a).is_sign_negative(), a.is_sign_negative());
    }
}

#[test]
fn min_and_max_pass_over_a_nan() {
    assert_eq!(f(s(f64::NAN).min(s(1.0))), 1.0);
    assert_eq!(f(s(1.0).min(s(f64::NAN))), 1.0);
    assert_eq!(f(s(f64::NAN).max(s(0.0))), 0.0);
    assert_eq!(f(s(2.0).min(s(1.0))), 1.0);
    assert_eq!(f(s(0.25).min(s(1.0))), 0.25);
    assert_eq!(f(s(-3.0).max(s(0.0))), 0.0);
    assert_eq!(f(s(3.0).max(s(0.0))), 3.0);
    for &a in SAMPLES.iter() {
        for &b in SAMPLES.iter() {
            if a == 0.0 && b == 0.0 {
                continue;
            }
            assert_eq!(s(a).min(s(b)).to_bits(), a.min(b).to_bits(), "min {} {}", a, b);
            assert_eq!(s(a).max(s(b)).to_bits(), a.max(b).to_bits(), "max {} {}", a, b);
        }
    }
}

#[test]
fn constants_have_the_patterns_of_the_numbers() {
    assert_eq!(f(Scalar::zero()).to_bits(), 0.0f64.to_bits());
    assert_eq!(f(Scalar::one()), 1.0);
    assert_eq!(f(Scalar::infinity()), f64::INFINITY);
    assert_eq!(f(Scalar::neg_infinity()), f64::NEG_INFINITY);
}

#[test]
fn from_u32_is_exact() {
    for n in [0u32, 1, 2, 3, 7, 100, 255, 256, 65535, 65536, 1 << 31, u32::MAX - 1, u32::MAX] {
        assert_eq!(f(Scalar::from_u32(n)), n as f64);
        assert_eq!(Scalar::from_u32(n).to_u32(), n);
    }
}

#[test]
fn to_u32_truncates_and_saturates() {
    let cases: [(f64, u32); 16] = [
        (0.0, 0),
        (-0.0, 0),
        (0.999, 0),
        (1.0, 1),
        (1.999, 1),
        (255.744, 255),
        (256.0, 256),
        (-0.5, 0),
        (-7.0, 0),
        (5e-324, 0),
        (4294967295.0, u32::MAX),
        (4294967295.5, u32::MAX),
        (4294967296.0, u32::MAX),
        (f64::INFINITY, u32::MAX),
        (f64::NEG_INFINITY, 0),
        (f64::NAN, 0),
    ];
    for (x, want) in cases {
        assert_eq!(s(x).to_u32(), want, "{}", x);
        assert_eq!(s(x).to_u32(), x as u32, "{}", x);
    }
}

#[test]
fn unit_fraction_keeps_the_high_53_bits() {
    assert_eq!(f(Scalar::unit_fraction(0)), 0.0);
    assert_eq!(f(Scalar::unit_fraction(2047)), 0.0);
    assert_eq!(f(Scalar::unit_fraction(2048)), 1.0 / 9007199254740992.0);
    assert_eq!(f(Scalar::unit_fraction(1 << 63)), 0.5);
    assert_eq!(f(Scalar::unit_fraction(3 << 62)), 0.75);
    assert_eq!(f(Scalar::unit_fraction(u64::MAX)), 1.0 - 1.0 / 9007199254740992.0);
    for draw in [1u64, 12345, 0xDEAD_BEEF_0BAD_F00D, u64::MAX / 3, 1 << 40, (1 << 11) + 1] {
        let want = (draw >> 11) as f64 * (1.0 / 9007199254740992.0);
        assert_eq!(f(Scalar::unit_fraction(draw)), want);
        assert!(f(Scalar::unit_fraction(draw)) < 1.0);
    }
}

/// A stream of patterns that visits zeros, subnormals, infinities and NaNs
/// as well as ordinary numbers.
fn patterns(count: usize) -> Vec<u64> {
    let mut state: u64 = 0x9E37_79B9_7F4A_7C15;
    let mut out = Vec::new();
    for k in 0..count {
        state = state.wrapping_mul(6364136223846793005).wrapping_add(1442695040888963407);
        let mut bits = state ^ (state >> 29);
        match k % 8 {
            0 => bits &= 0x800F_FFFF_FFFF_FFFF,
            1 => bits |= 0x7FF0_0000_0000_0000,
            2 => bits = (bits & 0x8000_0000_0000_0000) | 0x7FF0_0000_0000_0000,
            3 => bits &= 0x8000_0000_0000_0000,
            4 => bits = (bits & 0x800F_FFFF_FFFF_FFFF) | ((1023 + (bits >> 59)) << 52),
            _ => {}
        }
        out.push(bits);
    }
    out
}

#[test]
fn order_agrees_with_the_machine_on_many_patterns() {
    let all = patterns(2000);
    for (k, &a) in all.iter().enumerate() {
        let x = f64::from_bits(a);
        let b = all[(k * 7 + 3) % all.len()];
        let y = f64::from_bits(b);
        let (sa, sb) = (Scalar::from_bits(a), Scalar::from_bits(b));
        assert_eq!(sa.lt(sb), x < y);
        assert_eq!(sa.le(sb), x <= y);
        assert_eq!(sa.gt(sb), x > y);
        assert_eq!(sa.ge(sb), x >= y);
        assert_eq!(sa.same_number(sb), x == y);
        assert_eq!(sa.same_number(sa), x == x);
        assert_eq!(sa.is_nan(), x.is_nan());
        assert_eq!(sa.negated().to_bits(), (-x).to_bits());
        assert_eq!(sa.abs().to_bits(), x.abs().to_bits());
        assert_eq!(sa.to_u32(), x as u32);
        if !(x == 0.0 && y == 0.0) && !(x.is_nan() && y.is_nan()) {
            assert_eq!(sa.min(sb).to_bits(), x.min(y).to_bits());
            assert_eq!(sa.max(sb).to_bits(), x.max(y).to_bits());
        }
    }
}

#[test]
fn conversions_agree_with_the_machine_on_many_integers() {
    let mut state: u64 = 12345;
    for _ in 0..5000 {
        state = state.wrapping_mul(6364136223846793005).wrapping_add(1442695040888963407);
        let n = (state >> 32) as u32 >> ((state >> 8) % 32);
        assert_eq!(Scalar::from_u32(n).to_bits(), (n as f64).to_bits());
        assert_eq!(Scalar::from_u32(n).to_u32(), n);
        let want = (state >> 11) as f64 * (1.0 / 9007199254740992.0);
        assert_eq!(Scalar::unit_fraction(state).to_bits(), want.to_bits());
    }
}
