//! IEEE 754 binary64 values held by their bit pattern.
//!
//! The value grammars only carry numbers through, compare them with 0 and 1,
//! and convert an integer-valued one to `i32`; these are stated here over the
//! sign, biased exponent and fraction fields of the encoding.

use vstd::arithmetic::div_mod::{lemma_basic_div, lemma_div_is_ordered_by_denominator, lemma_div_multiples_vanish};
use vstd::arithmetic::power2::{lemma2_to64, lemma2_to64_rest, lemma_pow2_pos, lemma_pow2_strictly_increases, pow2};
use vstd::bits::lemma_u64_shr_is_div;
use vstd::prelude::*;

verus! {

/// A double-precision floating-point number, held as its IEEE 754 bit pattern.
#[derive(Debug, Clone, Copy)]
pub struct Binary64 {
    pub bits: u64,
}

/// Whether the sign bit is set.
pub open spec fn sign_bit(x: Binary64) -> bool {
    x.bits >= 0x8000_0000_0000_0000
}

/// The biased exponent field (11 bits).
pub open spec fn exponent(x: Binary64) -> int {
    (x.bits % 0x8000_0000_0000_0000) as int / 0x10_0000_0000_0000
}

/// The fraction field (52 bits).
pub open spec fn fraction(x: Binary64) -> int {
    (x.bits % 0x10_0000_0000_0000) as int
}

/// Not a number: all exponent bits set and a nonzero fraction.
pub open spec fn is_nan(x: Binary64) -> bool {
    exponent(x) == 0x7ff && fraction(x) != 0
}

/// Positive or negative infinity.
pub open spec fn is_infinite(x: Binary64) -> bool {
    exponent(x) == 0x7ff && fraction(x) == 0
}

/// The value equals 0 (either zero, `+0` or `-0`).
pub open spec fn is_zero(x: Binary64) -> bool {
    exponent(x) == 0 && fraction(x) == 0
}

/// The value is less than 0.
pub open spec fn is_negative(x: Binary64) -> bool {
    sign_bit(x) && !is_zero(x) && !is_nan(x)
}

/// The number `+0`.
pub open spec fn spec_zero() -> Binary64 {
    Binary64 { bits: 0 }
}

/// The number `1`, whose only encoding this is.
pub open spec fn spec_one() -> Binary64 {
    Binary64 { bits: 0x3ff0_0000_0000_0000 }
}

/// IEEE 754 equality: NaN equals nothing, and `+0` equals `-0`.
pub open spec fn ieee_eq(x: Binary64, y: Binary64) -> bool {
    !is_nan(x) && !is_nan(y) && (x.bits == y.bits || (is_zero(x) && is_zero(y)))
}

impl PartialEq for Binary64 {
    fn eq(&self, other: &Binary64) -> (r: bool) {
        let nan_self = self.bits % 0x8000_0000_0000_0000 > 0x7ff0_0000_0000_0000;
        let nan_other = other.bits % 0x8000_0000_0000_0000 > 0x7ff0_0000_0000_0000;
        let zeros = self.bits % 0x8000_0000_0000_0000 == 0 && other.bits % 0x8000_0000_0000_0000 == 0;
        !nan_self && !nan_other && (self.bits == other.bits || zeros)
    }
}

impl vstd::std_specs::cmp::PartialEqSpecImpl for Binary64 {
    open spec fn obeys_eq_spec() -> bool {
        true
    }

    open spec fn eq_spec(&self, other: &Binary64) -> bool {
        ieee_eq(*self, *other)
    }
}

/// The integer part of the magnitude of a finite number: the significand
/// scaled by the power of two that the exponent gives, rounded toward zero.
pub open spec fn truncated_magnitude(x: Binary64) -> int {
    if exponent(x) == 0 {
        0
    } else {
        let m = fraction(x) + 0x10_0000_0000_0000;
        if exponent(x) >= 1075 {
            m * pow2((exponent(x) - 1075) as nat)
        } else {
            m / pow2((1075 - exponent(x)) as nat) as int
        }
    }
}

/// The value converted to `i32` as Rust's `as` converts a float: rounded
/// toward zero, clamped to the range of `i32`, and `0` for NaN.
pub open spec fn to_i32(x: Binary64) -> i32 {
    if is_nan(x) {
        0
    } else if is_infinite(x) {
        if sign_bit(x) { i32::MIN } else { i32::MAX }
    } else {
        let t = truncated_magnitude(x);
        let v = if sign_bit(x) { -t } else { t };
        if v < i32::MIN { i32::MIN } else if v > i32::MAX { i32::MAX } else { v as i32 }
    }
}

impl Binary64 {
    /// The number `+0`.
    pub fn zero() -> (r: Binary64)
        ensures
            r == spec_zero(),
            is_zero(r),
    {
        Binary64 { bits: 0 }
    }

    /// The number `1`.
    pub fn one() -> (r: Binary64)
        ensures
            r == spec_one(),
    {
        Binary64 { bits: 0x3ff0_0000_0000_0000 }
    }

    /// Whether the value equals 0.
    pub fn is_zero(&self) -> (b: bool)
        ensures
            b == is_zero(*self),
    {
        self.bits % 0x8000_0000_0000_0000 == 0
    }

    /// Whether the value equals 1.
    pub fn is_one(&self) -> (b: bool)
        ensures
            b == (*self == spec_one()),
    {
        self.bits == 0x3ff0_0000_0000_0000
    }

    /// Whether the value is less than 0.
    pub fn is_negative(&self) -> (b: bool)
        ensures
            b == is_negative(*self),
    {
        self.bits > 0x8000_0000_0000_0000 && self.bits <= 0xfff0_0000_0000_0000
    }

    /// The value converted to `i32` as Rust's `as` does.
    pub fn to_i32(&self) -> (r: i32)
        ensures
            r == to_i32(*self),
    {
        let bits = self.bits;
        let e = (bits >> 52) & 0x7ff;
        let f = bits & 0xf_ffff_ffff_ffff;
        let negative = bits >= 0x8000_0000_0000_0000;
        assert((bits >> 52) & 0x7ff == (bits % 0x8000_0000_0000_0000) / 0x10_0000_0000_0000)
            by (bit_vector);
        assert(bits & 0xf_ffff_ffff_ffff == bits % 0x10_0000_0000_0000) by (bit_vector);
        if e == 0x7ff {
            if f != 0 {
                0
            } else if negative {
                i32::MIN
            } else {
                i32::MAX
            }
        } else if e < 1023 {
            proof {
                if e != 0 {
                    lemma2_to64_rest();
                    if e < 1022 {
                        lemma_pow2_strictly_increases(53, (1075 - e) as nat);
                    }
                    lemma_basic_div(f + 0x10_0000_0000_0000, pow2((1075 - e) as nat) as int);
                }
            }
            0
        } else if e >= 1054 {
            proof { lemma_large_magnitude(*self) }
            if negative {
                i32::MIN
            } else {
                i32::MAX
            }
        } else {
            let m = f | 0x10_0000_0000_0000;
            assert(f < 0x10_0000_0000_0000 ==> f | 0x10_0000_0000_0000 == f + 0x10_0000_0000_0000)
                by (bit_vector);
            let k = 1075 - e;
            let t = m >> k;
            proof {
                lemma_u64_shr_is_div(m, k);
                lemma2_to64();
                if k > 22 {
                    lemma_pow2_strictly_increases(22, k as nat);
                }
                lemma_div_is_ordered_by_denominator(m as int, 0x40_0000, pow2(k as nat) as int);
            }
            assert(t < 0x8000_0000);
            if negative {
                -(t as i32)
            } else {
                t as i32
            }
        }
    }
}

/// Whether `x` is a finite number whose value is exactly the integer `k`:
/// its magnitude, the significand `1.fraction` times 2 to the power of the
/// unbiased exponent (or `0.fraction` times 2^-1022 for a subnormal), is `|k|`,
/// and its sign bit is that of `k` (either for 0).
pub open spec fn has_integer_value(x: Binary64, k: int) -> bool {
    let a = if sign_bit(x) { -k } else { k };
    let e = exponent(x);
    let m = fraction(x) + 0x10_0000_0000_0000;
    &&& e < 0x7ff
    &&& a >= 0
    &&& if e == 0 {
        fraction(x) == 0 && a == 0
    } else if e >= 1075 {
        m * pow2((e - 1075) as nat) == a
    } else {
        m == a * pow2((1075 - e) as nat)
    }
}

/// A number whose value is an integer in the range of `i32` converts to that
/// integer.
pub proof fn lemma_to_i32_keeps_integers(x: Binary64, k: int)
    requires
        has_integer_value(x, k),
        i32::MIN <= k <= i32::MAX,
    ensures
        to_i32(x) == k,
{
    let e = exponent(x);
    let a = if sign_bit(x) { -k } else { k };
    if e != 0 && e < 1075 {
        let p = pow2((1075 - e) as nat) as int;
        lemma_pow2_pos((1075 - e) as nat);
        lemma_div_multiples_vanish(a, p);
        assert(a * p == p * a) by (nonlinear_arith);
    }
    assert(truncated_magnitude(x) == a);
}

/// A finite number whose biased exponent is at least 1054 has a magnitude of
/// at least 2^31.
proof fn lemma_large_magnitude(x: Binary64)
    requires
        1054 <= exponent(x) < 0x7ff,
    ensures
        truncated_magnitude(x) >= 0x8000_0000,
{
    let e = exponent(x);
    let m = fraction(x) + 0x10_0000_0000_0000;
    if e >= 1075 {
        lemma_pow2_pos((e - 1075) as nat);
        assert(m * pow2((e - 1075) as nat) >= m) by (nonlinear_arith)
            requires
                m >= 0,
                pow2((e - 1075) as nat) >= 1,
        ;
    } else {
        let k = (1075 - e) as nat;
        lemma2_to64();
        if k < 21 {
            lemma_pow2_strictly_increases(k, 21);
        }
        lemma_pow2_pos(k);
        lemma_div_is_ordered_by_denominator(m, pow2(k) as int, 0x20_0000);
    }
}

} // verus!
