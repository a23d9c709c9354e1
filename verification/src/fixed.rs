//! Signed fixed-point numbers with 32 fractional bits.
//!
//! A [`Fx`] stores a real number as `bits / FX_SCALE`, where `FX_SCALE` is
//! `2^32`.  Every operation saturates into the symmetric range
//! `[-FX_MAX_BITS, FX_MAX_BITS]`, so no operation panics and every result is
//! pinned down exactly by a spec function over the raw bits.  Saturation only
//! matters for magnitudes above two billion, far beyond the escape radius of
//! the iteration kernels; a saturated value simply registers as escaped.

use vstd::prelude::*;

verus! {

/// Number of raw units per 1.0: `2^32`.
pub const FX_SCALE: i64 = 4294967296;

/// Largest magnitude a fixed-point number may hold (`i64::MAX`); results are
/// saturated into `[-FX_MAX_BITS, FX_MAX_BITS]`.
pub const FX_MAX_BITS: i64 = i64::MAX;

/// Clamp a mathematical integer into the representable symmetric range.
pub open spec fn fx_sat(v: int) -> int {
    if v > FX_MAX_BITS as int {
        FX_MAX_BITS as int
    } else if v < -(FX_MAX_BITS as int) {
        -(FX_MAX_BITS as int)
    } else {
        v
    }
}

/// Magnitude of a mathematical integer.
pub open spec fn mag_int(v: int) -> int {
    if v >= 0 {
        v
    } else {
        -v
    }
}

/// Division of `v` by a positive `d`, rounding toward zero.
pub open spec fn div_trunc(v: int, d: int) -> int {
    if v >= 0 {
        v / d
    } else {
        -((-v) / d)
    }
}

/// What fixed-point addition returns, on raw bits.
pub open spec fn fx_add_val(a: int, b: int) -> int {
    fx_sat(a + b)
}

/// What fixed-point subtraction returns, on raw bits.
pub open spec fn fx_sub_val(a: int, b: int) -> int {
    fx_sat(a - b)
}

/// What fixed-point multiplication returns, on raw bits: the exact product
/// rescaled by `FX_SCALE`, rounded toward zero, then saturated.
pub open spec fn fx_mul_val(a: int, b: int) -> int {
    fx_sat(div_trunc(a * b, FX_SCALE as int))
}

/// What multiplication by a plain integer returns, on raw bits.
pub open spec fn fx_mul_int_val(a: int, k: int) -> int {
    fx_sat(a * k)
}

/// What division by a positive plain integer returns, on raw bits.
pub open spec fn fx_div_int_val(a: int, d: int) -> int {
    fx_sat(div_trunc(a, d))
}

/// What negation returns, on raw bits.
pub open spec fn fx_neg_val(a: int) -> int {
    fx_sat(-a)
}

/// What the absolute value returns, on raw bits.
pub open spec fn fx_abs_val(a: int) -> int {
    fx_sat(mag_int(a))
}

/// How a product's magnitude and sign relate to its factors'.
pub proof fn lemma_mag_mul(a: int, b: int)
    ensures
        mag_int(a * b) == mag_int(a) * mag_int(b),
        ((a >= 0 && b >= 0) || (a <= 0 && b <= 0)) ==> a * b >= 0,
        ((a <= 0 && b >= 0) || (a >= 0 && b <= 0)) ==> a * b <= 0,
{
    if a >= 0 && b >= 0 {
        assert(a * b >= 0) by (nonlinear_arith)
            requires
                a >= 0,
                b >= 0,
        ;
    } else if a < 0 && b < 0 {
        assert(a * b >= 0 && a * b == (-a) * (-b)) by (nonlinear_arith)
            requires
                a < 0,
                b < 0,
        ;
    } else if a < 0 {
        assert(a * b <= 0 && -(a * b) == (-a) * b) by (nonlinear_arith)
            requires
                a < 0,
                b >= 0,
        ;
    } else {
        assert(a * b <= 0 && -(a * b) == a * (-b)) by (nonlinear_arith)
            requires
                a >= 0,
                b <= 0,
        ;
    }
}

/// A signed fixed-point number: the real value `bits / FX_SCALE`.
#[derive(Clone, Copy, PartialEq, Eq, Structural, Debug)]
pub struct Fx {
    pub bits: i64,
}

/// Clamp an `i128` intermediate into the representable `i64` range.
fn clamp_bits(v: i128) -> (r: i64)
    ensures
        r as int == fx_sat(v as int),
{
    if v > FX_MAX_BITS as i128 {
        FX_MAX_BITS
    } else if v < -(FX_MAX_BITS as i128) {
        -FX_MAX_BITS
    } else {
        v as i64
    }
}

/// Clamp an unsigned magnitude into the representable `i64` range.
fn clamp_pos(q: u128) -> (r: i64)
    ensures
        r as int == fx_sat(q as int),
{
    if q > FX_MAX_BITS as u128 {
        FX_MAX_BITS
    } else {
        q as i64
    }
}

/// Clamp the negation of an unsigned magnitude into the representable range.
fn clamp_neg(q: u128) -> (r: i64)
    ensures
        r as int == fx_sat(-(q as int)),
{
    if q > FX_MAX_BITS as u128 {
        -FX_MAX_BITS
    } else {
        -(q as i64)
    }
}

impl Fx {
    /// The fixed-point number with the given raw bits.
    pub fn from_bits(bits: i64) -> (r: Fx)
        ensures
            r.bits == bits,
    {
        Fx { bits }
    }

    /// The fixed-point image of a small integer.
    pub fn from_int(i: i32) -> (r: Fx)
        ensures
            r.bits as int == fx_sat(i * FX_SCALE),
    {
        let wide: i128 = (i as i128) * 4294967296i128;
        proof {
            assert(wide == i * FX_SCALE);
        }
        Fx { bits: clamp_bits(wide) }
    }

    /// Magnitude of the raw bits, as an unsigned 128-bit intermediate.
    pub fn magnitude(self) -> (m: u128)
        ensures
            m as int == mag_int(self.bits as int),
            m <= 9223372036854775808u128,
    {
        if self.bits >= 0 {
            self.bits as u128
        } else {
            let wide: i128 = -(self.bits as i128);
            wide as u128
        }
    }

    /// Saturating addition.
    pub fn add(self, other: Fx) -> (r: Fx)
        ensures
            r.bits as int == fx_add_val(self.bits as int, other.bits as int),
    {
        Fx { bits: clamp_bits(self.bits as i128 + other.bits as i128) }
    }

    /// Saturating subtraction.
    pub fn sub(self, other: Fx) -> (r: Fx)
        ensures
            r.bits as int == fx_sub_val(self.bits as int, other.bits as int),
    {
        Fx { bits: clamp_bits(self.bits as i128 - other.bits as i128) }
    }

    /// Saturating negation.
    pub fn neg(self) -> (r: Fx)
        ensures
            r.bits as int == fx_neg_val(self.bits as int),
    {
        Fx { bits: clamp_bits(-(self.bits as i128)) }
    }

    /// Saturating fixed-point multiplication: the exact product of the two
    /// represented reals, rounded toward zero to the nearest representable
    /// value, then saturated.
    pub fn mul(self, other: Fx) -> (r: Fx)
        ensures
            r.bits as int == fx_mul_val(self.bits as int, other.bits as int),
    {
        let ma: u128 = self.magnitude();
        let mb: u128 = other.magnitude();
        proof {
            assert(ma * mb <= 85070591730234615865843651857942052864u128) by (nonlinear_arith)
                requires
                    ma <= 9223372036854775808u128,
                    mb <= 9223372036854775808u128,
            ;
            lemma_mag_mul(self.bits as int, other.bits as int);
        }
        let prod: u128 = ma * mb;
        let q: u128 = prod / 4294967296u128;
        let neg: bool = (self.bits < 0) != (other.bits < 0);
        if neg {
            Fx { bits: clamp_neg(q) }
        } else {
            Fx { bits: clamp_pos(q) }
        }
    }

    /// Saturating multiplication by a plain integer factor.
    pub fn mul_int(self, k: u32) -> (r: Fx)
        ensures
            r.bits as int == fx_mul_int_val(self.bits as int, k as int),
    {
        let ma: u128 = self.magnitude();
        proof {
            assert(ma * (k as u128) <= 39614081257132168796771975168u128) by (nonlinear_arith)
                requires
                    ma <= 9223372036854775808u128,
                    k <= 4294967295u32,
            ;
            lemma_mag_mul(self.bits as int, k as int);
        }
        let prod: u128 = ma * (k as u128);
        if self.bits < 0 {
            Fx { bits: clamp_neg(prod) }
        } else {
            Fx { bits: clamp_pos(prod) }
        }
    }

    /// Saturating division by a positive plain integer, rounding toward zero.
    pub fn div_int(self, d: u32) -> (r: Fx)
        requires
            d >= 1,
        ensures
            r.bits as int == fx_div_int_val(self.bits as int, d as int),
    {
        let ma: u128 = self.magnitude();
        let q: u128 = ma / (d as u128);
        if self.bits < 0 {
            Fx { bits: clamp_neg(q) }
        } else {
            Fx { bits: clamp_pos(q) }
        }
    }

    /// Saturating absolute value.
    pub fn abs(self) -> (r: Fx)
        ensures
            r.bits as int == fx_abs_val(self.bits as int),
    {
        if self.bits >= 0 {
            self
        } else {
            Fx { bits: clamp_bits(-(self.bits as i128)) }
        }
    }
}

} // verus!
