//! Real numbers as the renderer holds them: IEEE 754 binary32 values, kept by
//! their bit pattern.
//!
//! The library never does arithmetic on a `Scalar`; the host computes sums,
//! products and roots and hands the results in. What the library does decide
//! on its own is how two values compare, which of them is the smaller, and
//! which byte a value becomes in an image. All of that is settled here on the
//! bits, so that the answers for infinities, signed zeros and NaN are part of
//! the contracts.

use vstd::prelude::*;
use vstd::arithmetic::power2::pow2;
use vstd::arithmetic::power2::lemma2_to64;
use vstd::bits::lemma_u32_shr_is_div;

verus! {

/// The bit that carries the sign.
pub const SIGN_BIT: u32 = 0x8000_0000;

/// Magnitude of infinity; every larger magnitude is a NaN.
pub const INFINITY_BITS: u32 = 0x7f80_0000;

/// Bit pattern of the quiet NaN that `min` and `max` give for two NaNs.
pub const NAN_BITS: u32 = 0x7fc0_0000;

/// Magnitude of 1.0.
pub const ONE_BITS: u32 = 0x3f80_0000;

/// Magnitude of 256.0, the first value past the range of a byte.
pub const BYTE_LIMIT_BITS: u32 = 0x4380_0000;

/// The implicit leading bit of a normal significand.
pub const HIDDEN_BIT: u32 = 0x0080_0000;

/// A binary32 value, by its bits.
#[derive(Clone, Copy, Debug)]
pub struct Scalar {
    pub bits: u32,
}

impl Scalar {
    /// The sign bit is set.
    pub open spec fn sign(self) -> bool {
        self.bits >= SIGN_BIT
    }

    /// The bits below the sign bit, read as a number. Among values that are
    /// not NaN a larger magnitude is a larger absolute value.
    pub open spec fn magnitude(self) -> int {
        if self.bits >= SIGN_BIT {
            self.bits - SIGN_BIT
        } else {
            self.bits as int
        }
    }

    /// The value is a NaN.
    pub open spec fn nan(self) -> bool {
        self.magnitude() > INFINITY_BITS
    }

    /// Position on the number line: an integer that grows with the value.
    /// Both zeros sit at 0. Meaningful only for values that are not NaN.
    pub open spec fn order(self) -> int {
        if self.sign() {
            -self.magnitude()
        } else {
            self.magnitude()
        }
    }

    /// Like `order`, but the negative zero comes strictly before the positive
    /// one, so that two values with the same rank have the same bits.
    pub open spec fn rank(self) -> int {
        if self.sign() {
            -self.magnitude() - 1
        } else {
            self.magnitude()
        }
    }

    /// `self < other` as IEEE 754 has it: false whenever a NaN is involved.
    pub open spec fn spec_lt(self, other: Scalar) -> bool {
        !self.nan() && !other.nan() && self.order() < other.order()
    }

    /// `self <= other` as IEEE 754 has it: false whenever a NaN is involved.
    pub open spec fn spec_le(self, other: Scalar) -> bool {
        !self.nan() && !other.nan() && self.order() <= other.order()
    }

    /// `self > other`.
    pub open spec fn spec_gt(self, other: Scalar) -> bool {
        other.spec_lt(self)
    }

    /// `self >= other`.
    pub open spec fn spec_ge(self, other: Scalar) -> bool {
        other.spec_le(self)
    }

    /// `self == other` as IEEE 754 has it: the zeros are equal to each other,
    /// a NaN is equal to nothing.
    pub open spec fn spec_same(self, other: Scalar) -> bool {
        !self.nan() && !other.nan() && self.order() == other.order()
    }

    /// `self != 0.0`: true for everything but the two zeros, NaN included.
    pub open spec fn spec_nonzero(self) -> bool {
        self.magnitude() != 0
    }

    /// The smaller of two values. A NaN gives way to the other operand; two
    /// NaNs give the quiet NaN; of the two zeros the negative one is smaller.
    pub open spec fn spec_min(self, other: Scalar) -> Scalar {
        if self.nan() && other.nan() {
            Scalar { bits: NAN_BITS }
        } else if self.nan() {
            other
        } else if other.nan() {
            self
        } else if other.rank() < self.rank() {
            other
        } else {
            self
        }
    }

    /// The larger of two values, with NaN and the zeros treated as in
    /// `spec_min`.
    pub open spec fn spec_max(self, other: Scalar) -> Scalar {
        if self.nan() && other.nan() {
            Scalar { bits: NAN_BITS }
        } else if self.nan() {
            other
        } else if other.nan() {
            self
        } else if other.rank() > self.rank() {
            other
        } else {
            self
        }
    }

    /// The value cut off towards zero and clipped to `0..=255`; a NaN
    /// becomes 0.
    ///
    /// A normal value with biased exponent `e` and fraction `f` is
    /// `(2^23 + f) * 2^(e - 150)`; for `1 <= value < 256` the exponent lies in
    /// `127..=134`, so the whole part is the significand divided by
    /// `2^(150 - e)`.
    pub open spec fn spec_to_byte(self) -> u8 {
        let m = self.magnitude();
        if self.nan() || self.sign() || m < ONE_BITS {
            0u8
        } else if m >= BYTE_LIMIT_BITS {
            255u8
        } else {
            let exponent = m / (HIDDEN_BIT as int);
            let fraction = m % (HIDDEN_BIT as int);
            ((HIDDEN_BIT + fraction) / (pow2((150 - exponent) as nat) as int)) as u8
        }
    }

    /// The value with the given bits.
    pub fn from_bits(bits: u32) -> (r: Scalar)
        ensures
            r.bits == bits,
    {
        Scalar { bits }
    }

    /// The bits of the value.
    pub fn to_bits(self) -> (r: u32)
        ensures
            r == self.bits,
    {
        self.bits
    }

    /// Positive zero.
    pub fn zero() -> (r: Scalar)
        ensures
            r.bits == 0,
    {
        Scalar { bits: 0 }
    }

    /// The number one.
    pub fn one() -> (r: Scalar)
        ensures
            r.bits == ONE_BITS,
    {
        Scalar { bits: ONE_BITS }
    }

    /// Positive infinity.
    pub fn infinity() -> (r: Scalar)
        ensures
            r.bits == INFINITY_BITS,
    {
        Scalar { bits: INFINITY_BITS }
    }

    /// Negative infinity.
    pub fn neg_infinity() -> (r: Scalar)
        ensures
            r.bits == SIGN_BIT + INFINITY_BITS,
    {
        Scalar { bits: SIGN_BIT + INFINITY_BITS }
    }

    fn magnitude_bits(self) -> (r: u32)
        ensures
            r == self.magnitude(),
    {
        if self.bits >= SIGN_BIT {
            self.bits - SIGN_BIT
        } else {
            self.bits
        }
    }

    fn order_key(self) -> (r: i64)
        ensures
            r == self.order(),
    {
        let m: i64 = self.magnitude_bits() as i64;
        if self.bits >= SIGN_BIT {
            -m
        } else {
            m
        }
    }

    fn rank_key(self) -> (r: i64)
        ensures
            r == self.rank(),
    {
        let m: i64 = self.magnitude_bits() as i64;
        if self.bits >= SIGN_BIT {
            -m - 1
        } else {
            m
        }
    }

    /// Whether the value is a NaN.
    pub fn is_nan(self) -> (r: bool)
        ensures
            r == self.nan(),
    {
        self.magnitude_bits() > INFINITY_BITS
    }

    /// `self < other`.
    #[verifier::when_used_as_spec(spec_lt)]
    pub fn lt(self, other: Scalar) -> (r: bool)
        ensures
            r == self.spec_lt(other),
    {
        !self.is_nan() && !other.is_nan() && self.order_key() < other.order_key()
    }

    /// `self <= other`.
    #[verifier::when_used_as_spec(spec_le)]
    pub fn le(self, other: Scalar) -> (r: bool)
        ensures
            r == self.spec_le(other),
    {
        !self.is_nan() && !other.is_nan() && self.order_key() <= other.order_key()
    }

    /// `self > other`.
    #[verifier::when_used_as_spec(spec_gt)]
    pub fn gt(self, other: Scalar) -> (r: bool)
        ensures
            r == self.spec_gt(other),
    {
        other.lt(self)
    }

    /// `self >= other`.
    #[verifier::when_used_as_spec(spec_ge)]
    pub fn ge(self, other: Scalar) -> (r: bool)
        ensures
            r == self.spec_ge(other),
    {
        other.le(self)
    }

    /// `self == other` by value.
    #[verifier::when_used_as_spec(spec_same)]
    pub fn same(self, other: Scalar) -> (r: bool)
        ensures
            r == self.spec_same(other),
    {
        !self.is_nan() && !other.is_nan() && self.order_key() == other.order_key()
    }

    /// `self != 0.0`.
    #[verifier::when_used_as_spec(spec_nonzero)]
    pub fn nonzero(self) -> (r: bool)
        ensures
            r == self.spec_nonzero(),
    {
        self.magnitude_bits() != 0
    }

    /// The smaller of the two.
    #[verifier::when_used_as_spec(spec_min)]
    pub fn min(self, other: Scalar) -> (r: Scalar)
        ensures
            r == self.spec_min(other),
    {
        let a: bool = self.is_nan();
        let b: bool = other.is_nan();
        if a && b {
            Scalar { bits: NAN_BITS }
        } else if a {
            other
        } else if b {
            self
        } else if other.rank_key() < self.rank_key() {
            other
        } else {
            self
        }
    }

    /// The larger of the two.
    #[verifier::when_used_as_spec(spec_max)]
    pub fn max(self, other: Scalar) -> (r: Scalar)
        ensures
            r == self.spec_max(other),
    {
        let a: bool = self.is_nan();
        let b: bool = other.is_nan();
        if a && b {
            Scalar { bits: NAN_BITS }
        } else if a {
            other
        } else if b {
            self
        } else if other.rank_key() > self.rank_key() {
            other
        } else {
            self
        }
    }

    /// The byte that stands for the value in an image: the value rounded
    /// down, clipped to what a byte can hold.
    #[verifier::when_used_as_spec(spec_to_byte)]
    pub fn to_byte(self) -> (r: u8)
        ensures
            r == self.spec_to_byte(),
    {
        let m: u32 = self.magnitude_bits();
        if m > INFINITY_BITS || self.bits >= SIGN_BIT || m < ONE_BITS {
            0
        } else if m >= BYTE_LIMIT_BITS {
            255
        } else {
            let exponent: u32 = m / HIDDEN_BIT;
            let fraction: u32 = m % HIDDEN_BIT;
            let shift: u32 = 150 - exponent;
            let whole: u32 = (HIDDEN_BIT + fraction) >> shift;
            proof {
                lemma_u32_shr_is_div((HIDDEN_BIT + fraction) as u32, shift);
                lemma2_to64();
                assert(pow2(shift as nat) >= 0x1_0000) by {
                    lemma_byte_shift_floor(shift as nat);
                }
                assert(whole <= 255) by (nonlinear_arith)
                    requires
                        whole == (HIDDEN_BIT + fraction) as nat / pow2(shift as nat),
                        pow2(shift as nat) >= 0x1_0000,
                        HIDDEN_BIT + fraction < 0x100_0000,
                ;
            }
            whole as u8
        }
    }
}

/// A shift by 16 places or more divides by at least 65536.
proof fn lemma_byte_shift_floor(shift: nat)
    requires
        16 <= shift,
    ensures
        pow2(shift) >= 0x1_0000,
{
    lemma2_to64();
    if shift > 16 {
        vstd::arithmetic::power2::lemma_pow2_strictly_increases(16, shift);
    }
}

/// Every value from 255 upwards, infinity included, becomes the byte 255.
pub proof fn lemma_to_byte_saturates(x: Scalar)
    requires
        x.spec_ge(Scalar { bits: 0x437f_0000 }),
    ensures
        x.spec_to_byte() == 255,
{
    lemma2_to64();
    let m = x.magnitude();
    if m < BYTE_LIMIT_BITS {
        assert(m / (HIDDEN_BIT as int) == 134);
        assert(m % (HIDDEN_BIT as int) == m - 134 * HIDDEN_BIT);
        let whole = (HIDDEN_BIT + m % (HIDDEN_BIT as int)) / (pow2(16) as int);
        assert(whole == 255);
    }
}

/// Among values that are not NaN, the rank tells the bits: the order that
/// `min` and `max` go by has no ties between different values.
pub proof fn lemma_rank_injective(a: Scalar, b: Scalar)
    requires
        a.rank() == b.rank(),
    ensures
        a == b,
{
}

/// `min` and `max` do not depend on the order of their operands.
pub proof fn lemma_min_max_commute(a: Scalar, b: Scalar)
    ensures
        a.spec_min(b) == b.spec_min(a),
        a.spec_max(b) == b.spec_max(a),
{
}

/// `min` and `max` may be nested either way.
pub proof fn lemma_min_max_associate(a: Scalar, b: Scalar, c: Scalar)
    ensures
        a.spec_min(b).spec_min(c) == a.spec_min(b.spec_min(c)),
        a.spec_max(b).spec_max(c) == a.spec_max(b.spec_max(c)),
{
}

/// No comparison holds of a NaN, in either position.
pub proof fn lemma_nan_compares_false(a: Scalar, b: Scalar)
    requires
        a.nan() || b.nan(),
    ensures
        !a.spec_lt(b),
        !a.spec_le(b),
        !a.spec_gt(b),
        !a.spec_ge(b),
        !a.spec_same(b),
{
}

} // verus!
