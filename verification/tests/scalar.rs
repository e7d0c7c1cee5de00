use raytracer::interval::Interval;
use raytracer::scalar::{Scalar, INFINITY_BITS, MINUS_ONE_BITS, ONE_BITS, SIGN_BIT};
use raytracer::utils::clamp;
use raytracer::vec::{Vec3, NEAR_ZERO_BITS};

fn s(x: f64) -> Scalar {
    Scalar::from_bits(x.to_bits())
}

fn f(x: Scalar) -> f64 {
    f64::from_bits(x.to_bits())
}

fn samples() -> Vec<f64> {
    vec![
        0.0,
        -0.0,
        1.0,
        -1.0,
        0.5,
        -0.5,
        0.001,
        0.999,
        1e-8,
        -1e-8,
        9.9e-9,
        1e-300,
        -1e-300,
        5e-324,
        -5e-324,
        1e300,
        -1e300,
        2.5,
        -2.5,
        255.999,
        f64::MAX,
        f64::MIN,
        f64::MIN_POSITIVE,
        f64::INFINITY,
        f64::NEG_INFINITY,
        f64::NAN,
        -f64::NAN,
    ]
}

#[test]
fn constants_are_the_patterns_they_name() {
    assert_eq!(ONE_BITS, 1.0f64.to_bits());
    assert_eq!(MINUS_ONE_BITS, (-1.0f64).to_bits());
    assert_eq!(INFINITY_BITS, f64::INFINITY.to_bits());
    assert_eq!(SIGN_BIT, (-0.0f64).to_bits());
    assert_eq!(NEAR_ZERO_BITS, 1e-8f64.to_bits());
}

#[test]
fn bits_round_trip() {
    for x in samples() {
        assert_eq!(s(x).to_bits(), x.to_bits());
        assert_eq!(s(x).bits, x.to_bits());
    }
}

#[test]
fn is_nan_agrees_with_the_hardware() {
    for x in samples() {
        assert_eq!(s(x).is_nan(), x.is_nan(), "{x}");
    }
}

#[test]
fn comparisons_agree_with_the_hardware() {
    for a in samples() {
        for b in samples() {
            assert_eq!(s(a).lt(s(b)), a < b, "{a} < {b}");
            assert_eq!(s(a).le(s(b)), a <= b, "{a} <= {b}");
            assert_eq!(s(a).gt(s(b)), a > b, "{a} > {b}");
            assert_eq!(s(a).ge(s(b)), a >= b, "{a} >= {b}");
        }
    }
}

#[test]
fn zeros_are_equal_and_nan_is_unordered() {
    assert!(s(0.0).le(s(-0.0)));
    assert!(s(-0.0).le(s(0.0)));
    assert!(!s(-0.0).lt(s(0.0)));
    assert!(!s(f64::NAN).le(s(f64::NAN)));
    assert!(!s(f64::NAN).lt(s(1.0)));
    assert!(!s(1.0).gt(s(f64::NAN)));
}

#[test]
fn neg_and_abs_agree_with_the_hardware() {
    for x in samples() {
        assert_eq!(s(x).neg().to_bits(), (-x).to_bits(), "-{x}");
        assert_eq!(s(x).abs().to_bits(), x.abs().to_bits(), "|{x}|");
    }
    assert_eq!(f(s(2.5).neg()), -2.5);
    assert_eq!(f(s(-2.5).abs()), 2.5);
}

#[test]
fn negation_reverses_order() {
    for a in samples() {
        for b in samples() {
            assert_eq!(s(a).lt(s(b)), s(b).neg().lt(s(a).neg()));
        }
    }
}

#[test]
fn interval_contains_agrees_with_range_inclusive() {
    for lo in samples() {
        for hi in samples() {
            let range = Interval::new(s(lo), s(hi));
            for x in samples() {
                assert_eq!(range.contains(s(x)), (lo..=hi).contains(&x), "{x} in {lo}..={hi}");
            }
        }
    }
}

#[test]
fn interval_bounds_are_included() {
    let range = Interval::new(s(0.001), s(f64::INFINITY));
    assert!(range.contains(s(0.001)));
    assert!(range.contains(s(f64::INFINITY)));
    assert!(!range.contains(s(0.000999)));
    assert!(!range.contains(s(f64::NAN)));
}

#[test]
fn narrowed_keeps_the_lower_bound() {
    let range = Interval::new(s(0.001), s(f64::INFINITY));
    let narrow = range.narrowed(s(3.0));
    assert_eq!(narrow, Interval::new(s(0.001), s(3.0)));
    assert!(narrow.contains(s(3.0)));
    assert!(!narrow.contains(s(3.5)));
}

#[test]
fn clamp_agrees_with_the_hardware() {
    let bounds = [(0.0, 0.999), (-1.0, 1.0), (2.0, 2.0), (-0.0, 0.0), (f64::NEG_INFINITY, 5.0)];
    for (lo, hi) in bounds {
        let range = Interval::new(s(lo), s(hi));
        for x in samples() {
            let got = clamp(&range, s(x));
            assert_eq!(got.to_bits(), x.clamp(lo, hi).to_bits(), "{x} into {lo}..={hi}");
        }
    }
}

#[test]
fn clamp_intensity_examples() {
    let intensity = Interval::new(s(0.0), s(0.999));
    assert_eq!(f(clamp(&intensity, s(1.7))), 0.999);
    assert_eq!(f(clamp(&intensity, s(-0.2))), 0.0);
    assert_eq!(f(clamp(&intensity, s(0.25))), 0.25);
    assert!(f(clamp(&intensity, s(f64::NAN))).is_nan());
}

#[test]
fn vec3_new_default_and_neg() {
    let v = Vec3::new(s(1.0), s(-2.0), s(0.0));
    assert_eq!(v.x, s(1.0));
    assert_eq!(v.y, s(-2.0));
    assert_eq!(v.z, s(0.0));
    let n = v.neg();
    assert_eq!(n, Vec3::new(s(-1.0), s(2.0), s(-0.0)));
    assert_eq!(n.neg(), v);
    let d = Vec3::default();
    assert_eq!(d, Vec3::new(s(0.0), s(0.0), s(0.0)));
}

#[test]
fn near_zero_agrees_with_the_hardware() {
    let limit = 1e-8;
    for x in samples() {
        for y in [0.0, 1e-9, -1e-9, 1e-8, 1.0, f64::NAN] {
            let v = Vec3::new(s(x), s(y), s(-5e-9));
            let expected = x.abs() < limit && y.abs() < limit && (5e-9f64) < limit;
            assert_eq!(v.is_near_zero(), expected, "({x}, {y}, -5e-9)");
        }
    }
}

#[test]
fn near_zero_examples() {
    assert!(Vec3::new(s(0.0), s(-0.0), s(9.9e-9)).is_near_zero());
    assert!(!Vec3::new(s(0.0), s(0.0), s(1e-8)).is_near_zero());
    assert!(!Vec3::new(s(0.0), s(f64::NAN), s(0.0)).is_near_zero());
    assert!(!Vec3::new(s(1.0), s(0.0), s(0.0)).is_near_zero());
}

#[test]
fn samples_are_kept_inside_the_unit_sphere() {
    assert!(Vec3::inside_unit_sphere(s(0.0)));
    assert!(Vec3::inside_unit_sphere(s(0.999_999)));
    assert!(!Vec3::inside_unit_sphere(s(1.0)));
    assert!(!Vec3::inside_unit_sphere(s(2.9)));
    assert!(!Vec3::inside_unit_sphere(s(f64::NAN)));
}
