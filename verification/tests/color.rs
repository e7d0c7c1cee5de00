use raytracer::color::{to_byte, FULL_INTENSITY_BITS, HIDDEN_BIT};
use raytracer::scalar::Scalar;
use raytracer::vec::Vec3;

fn s(x: f64) -> Scalar {
    Scalar::from_bits(x.to_bits())
}

#[test]
fn colour_constants_are_the_patterns_they_name() {
    assert_eq!(FULL_INTENSITY_BITS, 0.999f64.to_bits());
    assert_eq!(HIDDEN_BIT, 1u64 << 52);
}

#[test]
fn byte_examples() {
    assert_eq!(to_byte(s(0.0)), 0);
    assert_eq!(to_byte(s(-0.0)), 0);
    assert_eq!(to_byte(s(0.5)), 128);
    assert_eq!(to_byte(s(0.25)), 64);
    assert_eq!(to_byte(s(0.999)), 255);
    assert_eq!(to_byte(s(1.0 / 256.0)), 1);
    assert_eq!(to_byte(s(0.0039)), 0);
    assert_eq!(to_byte(s(0.75)), 192);
    assert_eq!(to_byte(s(1.0)), 255);
    assert_eq!(to_byte(s(17.0)), 255);
    assert_eq!(to_byte(s(f64::INFINITY)), 255);
    assert_eq!(to_byte(s(-3.0)), 0);
    assert_eq!(to_byte(s(f64::NEG_INFINITY)), 0);
    assert_eq!(to_byte(s(f64::NAN)), 0);
    assert_eq!(to_byte(s(5e-324)), 0);
}

#[test]
fn byte_agrees_with_the_hardware() {
    let mut x = 0.0f64;
    while x < 1.25 {
        assert_eq!(to_byte(s(x)), (256.0 * x) as u8, "{x}");
        x += 0.000_731;
    }
    for k in 0..=256u32 {
        let edge = k as f64 / 256.0;
        for y in [edge, f64::from_bits(edge.to_bits() + 1), f64::from_bits(edge.to_bits().max(1) - 1)] {
            assert_eq!(to_byte(s(y)), (256.0 * y) as u8, "{y}");
        }
    }
    for y in [1e-300, 1e-10, f64::MIN_POSITIVE, 0.999_999_999_999, 1e300, -1e-300, f64::MAX] {
        assert_eq!(to_byte(s(y)), (256.0 * y) as u8, "{y}");
    }
}

#[test]
fn byte_never_decreases() {
    let mut last = 0u8;
    let mut x = 0.0f64;
    while x < 1.1 {
        let b = to_byte(s(x));
        assert!(b >= last);
        last = b;
        x += 0.000_377;
    }
    assert_eq!(last, 255);
}

#[test]
fn get_rgb_clamps_and_scales() {
    let c = Vec3::new(s(0.5), s(1.7), s(-0.2));
    assert_eq!(c.get_rgb(), (128, 255, 0));
    let d = Vec3::new(s(0.999), s(0.0), s(f64::NAN));
    assert_eq!(d.get_rgb(), (255, 0, 0));
}

#[test]
fn get_rgb_agrees_with_the_hardware() {
    let mut x = -0.3f64;
    while x < 1.5 {
        let expected = (256.0 * x.clamp(0.0, 0.999)) as u8;
        let c = Vec3::new(s(x), s(x), s(x));
        assert_eq!(c.get_rgb(), (expected, expected, expected), "{x}");
        x += 0.001_37;
    }
}

#[test]
fn gamma_encoded_average_becomes_a_pixel() {
    // A colour summed over 100 samples, averaged and gamma-encoded by the
    // square root, as the render does before it asks for bytes.
    let sum = [25.0f64, 100.0, 49.0];
    let gamma: Vec<f64> = sum.iter().map(|x| (x / 100.0).sqrt()).collect();
    let c = Vec3::new(s(gamma[0]), s(gamma[1]), s(gamma[2]));
    assert_eq!(c.get_rgb(), (128, 255, 179));
}
