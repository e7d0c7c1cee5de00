//! Colours on their way to the image: from a gamma-encoded intensity to a byte.

use vstd::prelude::*;
use crate::interval::Interval;
use crate::scalar::{Scalar, SIGN_BIT};
use crate::utils::{clamp, clamped};
use crate::vec::Color;

verus! {

/// `2^52`: the weight of the lowest exponent bit of a binary64 pattern, and
/// the leading bit that the significand of a normal number has without
/// storing it.
pub const HIDDEN_BIT: u64 = 0x0010_0000_0000_0000;

/// The pattern of `0.999`, the largest intensity that is written out.
pub const FULL_INTENSITY_BITS: u64 = 0x3fef_f7ce_d916_872b;

impl Scalar {
    /// The exponent field. A normal number with exponent `e` and fraction `m`
    /// has the value `(2^52 + m) * 2^(e - 1075)`.
    pub open spec fn exponent(self) -> int {
        self.magnitude() / (HIDDEN_BIT as int)
    }

    /// The fraction field.
    pub open spec fn fraction(self) -> int {
        self.magnitude() % (HIDDEN_BIT as int)
    }
}

/// The intensities that are written out: `0.0..=0.999`.
pub open spec fn intensity() -> Interval {
    Interval { start: Scalar { bits: 0 }, end: Scalar { bits: FULL_INTENSITY_BITS } }
}

/// `256 * c` cut down to a whole number and held within `0..=255`. Below
/// zero, and for a NaN, that is 0; from `1.0` on it is 255; below `2^-8` it
/// is 0; and between, where `c` is `(2^52 + m) * 2^(e - 1075)`, it is the
/// significand without its last `1067 - e` bits.
pub open spec fn byte_of(c: Scalar) -> int {
    if c.nan() || c.negative() {
        0
    } else if c.exponent() >= 1023 {
        255
    } else if c.exponent() < 1015 {
        0
    } else {
        (HIDDEN_BIT + c.fraction()) / (vstd::arithmetic::power2::pow2((1067 - c.exponent()) as nat) as int)
    }
}

/// The byte for an intensity: `256 * c` as a `u8`; see [`byte_of`].
pub fn to_byte(c: Scalar) -> (b: u8)
    ensures
        b == byte_of(c),
{
    if c.is_nan() || c.bits >= SIGN_BIT {
        return 0;
    }
    let e: u64 = c.bits / HIDDEN_BIT;
    if e >= 1023 {
        return 255;
    }
    if e < 1015 {
        return 0;
    }
    let significand: u64 = HIDDEN_BIT + c.bits % HIDDEN_BIT;
    let drop: u64 = 1067 - e;
    let mut divisor: u64 = 0x2000_0000_0000;
    let mut dropped: u64 = 45;
    proof {
        vstd::arithmetic::power2::lemma2_to64_rest();
    }
    while dropped < drop
        invariant
            45 <= dropped <= drop <= 52,
            divisor == vstd::arithmetic::power2::pow2(dropped as nat),
        decreases drop - dropped,
    {
        proof {
            vstd::arithmetic::power2::lemma2_to64_rest();
            vstd::arithmetic::power2::lemma_pow2_unfold((dropped + 1) as nat);
        }
        divisor = divisor * 2;
        dropped += 1;
    }
    let quotient: u64 = significand / divisor;
    proof {
        assert(significand < 0x0020_0000_0000_0000);
        assert(divisor >= 0x2000_0000_0000);
        assert(quotient < 256) by (nonlinear_arith)
            requires
                quotient == significand / divisor,
                significand < 0x0020_0000_0000_0000,
                divisor >= 0x2000_0000_0000,
        ;
    }
    quotient as u8
}

impl Color {
    /// The three bytes of a colour whose components are gamma-encoded
    /// intensities: each is held within `0.0..=0.999` and then scaled to
    /// `0..=255`.
    pub fn get_rgb(self) -> (rgb: (u8, u8, u8))
        ensures
            rgb == (
                byte_of(clamped(intensity(), self.x)) as u8,
                byte_of(clamped(intensity(), self.y)) as u8,
                byte_of(clamped(intensity(), self.z)) as u8,
            ),
    {
        let range = Interval::new(Scalar::from_bits(0), Scalar::from_bits(FULL_INTENSITY_BITS));
        let r = to_byte(clamp(&range, self.x));
        let g = to_byte(clamp(&range, self.y));
        let b = to_byte(clamp(&range, self.z));
        (r, g, b)
    }
}

/// The byte of an intensity is a byte, and within `0.0..=0.999` it is never
/// cut off at 255: it is the whole part of `256 * c` itself.
pub proof fn lemma_intensity_fits_a_byte(c: Scalar)
    ensures
        0 <= byte_of(c) <= 255,
        intensity().holds(c) ==> c.negative() || c.exponent() < 1023,
{
    vstd::arithmetic::power2::lemma2_to64_rest();
    if !c.nan() && !c.negative() && 1015 <= c.exponent() < 1023 {
        let drop = (1067 - c.exponent()) as nat;
        let divisor = vstd::arithmetic::power2::pow2(drop) as int;
        let significand = HIDDEN_BIT + c.fraction();
        assert(divisor >= 0x2000_0000_0000);
        assert(0 <= significand / divisor < 256) by (nonlinear_arith)
            requires
                0 <= significand < 0x0020_0000_0000_0000,
                divisor >= 0x2000_0000_0000,
        ;
    }
}

/// A brighter intensity never gets a smaller byte.
pub proof fn lemma_byte_is_monotone(c: Scalar, d: Scalar)
    requires
        c.at_most(d),
    ensures
        byte_of(c) <= byte_of(d),
{
    vstd::arithmetic::power2::lemma2_to64_rest();
    lemma_intensity_fits_a_byte(c);
    lemma_intensity_fits_a_byte(d);
    if !c.negative() && !d.negative() && 1015 <= c.exponent() && d.exponent() < 1023 {
        let p = vstd::arithmetic::power2::pow2((1067 - c.exponent()) as nat) as int;
        let q = vstd::arithmetic::power2::pow2((1067 - d.exponent()) as nat) as int;
        let m = HIDDEN_BIT + c.fraction();
        let n = HIDDEN_BIT + d.fraction();
        assert(c.exponent() <= d.exponent());
        if c.exponent() == d.exponent() {
            assert(m / p <= n / q) by (nonlinear_arith)
                requires
                    p == q,
                    p > 0,
                    0 <= m <= n,
            ;
        } else {
            vstd::arithmetic::power2::lemma_pow2_adds(
                (d.exponent() - c.exponent()) as nat,
                (1067 - d.exponent()) as nat,
            );
            vstd::arithmetic::power2::lemma_pow2_strictly_increases(
                0,
                (d.exponent() - c.exponent()) as nat,
            );
            vstd::arithmetic::power2::lemma2_to64();
            let k = vstd::arithmetic::power2::pow2((d.exponent() - c.exponent()) as nat) as int;
            assert(m / p <= n / q) by (nonlinear_arith)
                requires
                    p == k * q,
                    k >= 2,
                    q > 0,
                    0 <= m < 2 * 0x0010_0000_0000_0000,
                    n >= 0x0010_0000_0000_0000,
            ;
        }
    }
}

} // verus!
