//! Single-precision measurements carried by their IEEE 754 bit pattern.
//!
//! The host computes measurements in `f32`; this crate stores, compares and truncates them. A
//! [`Scalar`] holds the 32 bits of one such value, and the comparisons below are those of the
//! number that the bits stand for.

use vstd::arithmetic::power2::*;
use vstd::bits::*;
use vstd::prelude::*;

verus! {

/// One `f32`, as `f32::to_bits` gives it. `==` compares the bits.
#[derive(Clone, Copy, Debug, PartialEq, Eq, Structural)]
pub struct Scalar {
    pub bits: u32,
}

impl Scalar {
    /// The bits without the sign.
    pub open spec fn magnitude(self) -> int {
        self.bits as int % 0x8000_0000
    }

    /// True when the sign bit is set.
    pub open spec fn negative(self) -> bool {
        self.bits >= 0x8000_0000u32
    }

    /// True when the bits stand for no number.
    pub open spec fn nan(self) -> bool {
        self.magnitude() > 0x7F80_0000
    }

    /// True for every number but the infinities.
    pub open spec fn finite(self) -> bool {
        self.magnitude() < 0x7F80_0000
    }

    /// Position on the number line: numbers compare as their ranks do, and both zeros have
    /// rank zero.
    pub open spec fn rank(self) -> int {
        if self.negative() {
            -self.magnitude()
        } else {
            self.magnitude()
        }
    }

    /// `a < b` on numbers; false when either is not a number.
    pub open spec fn less(self, other: Scalar) -> bool {
        !self.nan() && !other.nan() && self.rank() < other.rank()
    }

    /// `a <= b` on numbers; false when either is not a number.
    pub open spec fn at_most(self, other: Scalar) -> bool {
        !self.nan() && !other.nan() && self.rank() <= other.rank()
    }

    /// `a == b` on numbers; false when either is not a number.
    pub open spec fn same(self, other: Scalar) -> bool {
        !self.nan() && !other.nan() && self.rank() == other.rank()
    }

    /// Magnitude of the whole part, for numbers below `2^31`.
    pub open spec fn whole_magnitude(self) -> int {
        let exponent = self.magnitude() / 0x80_0000;
        let fraction = self.magnitude() % 0x80_0000;
        if exponent < 127 {
            0
        } else if exponent < 150 {
            (0x80_0000 + fraction) / (pow2((150 - exponent) as nat) as int)
        } else {
            (0x80_0000 + fraction) * pow2((exponent - 150) as nat)
        }
    }

    /// The number rounded toward zero, held to the range of `i32`; zero when not a number.
    pub open spec fn truncated(self) -> int {
        if self.nan() {
            0
        } else if self.magnitude() >= 0x4F00_0000 {
            if self.negative() {
                -0x8000_0000
            } else {
                0x7FFF_FFFF
            }
        } else if self.negative() {
            -self.whole_magnitude()
        } else {
            self.whole_magnitude()
        }
    }

    /// Held between two bounds; what is no number stays as it is.
    pub open spec fn clamped(self, lo: Scalar, hi: Scalar) -> Scalar {
        if self.less(lo) {
            lo
        } else if hi.less(self) {
            hi
        } else {
            self
        }
    }

    /// The value whose bits are `bits`.
    pub fn from_bits(bits: u32) -> (r: Scalar)
        ensures
            r.bits == bits,
    {
        Scalar { bits }
    }

    /// The stored bits.
    pub fn to_bits(self) -> (r: u32)
        ensures
            r == self.bits,
    {
        self.bits
    }

    /// True when the bits stand for no number.
    pub fn is_nan(self) -> (r: bool)
        ensures
            r == self.nan(),
    {
        self.bits % 0x8000_0000 > 0x7F80_0000
    }

    /// True for every number but the infinities.
    pub fn is_finite(self) -> (r: bool)
        ensures
            r == self.finite(),
    {
        self.bits % 0x8000_0000 < 0x7F80_0000
    }

    /// Position on the number line, see [`Self::rank`].
    pub fn position(self) -> (r: i64)
        ensures
            r == self.rank(),
    {
        let m: i64 = (self.bits % 0x8000_0000) as i64;
        if self.bits >= 0x8000_0000 {
            0 - m
        } else {
            m
        }
    }

    /// `self < other` as numbers.
    pub fn lt(self, other: Scalar) -> (r: bool)
        ensures
            r == self.less(other),
    {
        !self.is_nan() && !other.is_nan() && self.position() < other.position()
    }

    /// `self <= other` as numbers.
    pub fn le(self, other: Scalar) -> (r: bool)
        ensures
            r == self.at_most(other),
    {
        !self.is_nan() && !other.is_nan() && self.position() <= other.position()
    }

    /// `self == other` as numbers.
    pub fn same_number(self, other: Scalar) -> (r: bool)
        ensures
            r == self.same(other),
    {
        !self.is_nan() && !other.is_nan() && self.position() == other.position()
    }

    /// Held between two bounds; what is no number stays as it is.
    pub fn clamp_between(self, lo: Scalar, hi: Scalar) -> (r: Scalar)
        ensures
            r == self.clamped(lo, hi),
    {
        if self.lt(lo) {
            lo
        } else if hi.lt(self) {
            hi
        } else {
            self
        }
    }

    /// Round toward zero, saturating at the range of `i32`.
    pub fn trunc_i32(self) -> (r: i32)
        ensures
            r == self.truncated(),
    {
        let m: u32 = self.bits % 0x8000_0000;
        if m > 0x7F80_0000 {
            return 0;
        }
        if m >= 0x4F00_0000 {
            return if self.bits >= 0x8000_0000 {
                i32::MIN
            } else {
                i32::MAX
            };
        }
        let exponent: u32 = m / 0x80_0000;
        let mantissa: u64 = (0x80_0000 + m % 0x80_0000) as u64;
        let whole: u64 = if exponent < 127 {
            0
        } else if exponent < 150 {
            let by: u64 = (150 - exponent) as u64;
            proof {
                lemma_u64_shr_is_div(mantissa, by);
                lemma_whole_fits(mantissa as int, by as nat);
            }
            mantissa >> by
        } else {
            let by: u64 = (exponent - 150) as u64;
            proof {
                lemma_shift_fits(mantissa as int, by as nat);
                lemma_u64_shl_is_mul(mantissa, by);
            }
            mantissa << by
        };
        if self.bits >= 0x8000_0000 {
            0 - (whole as i32)
        } else {
            whole as i32
        }
    }
}

proof fn lemma_whole_fits(mantissa: int, by: nat)
    requires
        0 <= mantissa < 0x100_0000,
        1 <= by <= 23,
    ensures
        0 <= mantissa / (pow2(by) as int) < 0x100_0000,
{
    lemma_pow2_pos(by);
    let p = pow2(by) as int;
    assert(0 <= mantissa / p <= mantissa) by (nonlinear_arith)
        requires
            mantissa >= 0,
            p >= 1,
    ;
}

proof fn lemma_shift_fits(mantissa: int, by: nat)
    requires
        0 <= mantissa < 0x100_0000,
        by <= 7,
    ensures
        mantissa * pow2(by) < 0x8000_0000,
        mantissa * pow2(by) <= u64::MAX,
{
    lemma2_to64();
    let p = pow2(by) as int;
    assert(p <= 128) by {
        if by < 7 {
            lemma_pow2_strictly_increases(by, 7);
        }
    }
    assert(mantissa * p <= 0xFF_FFFF * 128) by (nonlinear_arith)
        requires
            0 <= mantissa <= 0xFF_FFFF,
            0 <= p <= 128,
    ;
}

/// Rounding goes toward zero: the whole part of a number is the largest whole number that does
/// not exceed its magnitude, with its sign; numbers beyond the range of `i32` become the nearest
/// end of it.
pub proof fn law_truncation_is_toward_zero(s: Scalar)
    ensures
        -0x8000_0000 <= s.truncated() <= 0x7FFF_FFFF,
        s.nan() ==> s.truncated() == 0,
        !s.nan() && s.negative() ==> s.truncated() <= 0,
        !s.nan() && !s.negative() ==> s.truncated() >= 0,
        !s.nan() && s.magnitude() >= 0x4F00_0000 ==> s.truncated() == if s.negative() {
            -0x8000_0000int
        } else {
            0x7FFF_FFFF
        },
        s.magnitude() < 0x4F00_0000 ==> ({
            let exponent = s.bits as int % 0x8000_0000 / 0x80_0000;
            let mantissa = 0x80_0000 + s.bits as int % 0x80_0000;
            let whole = if s.negative() {
                -s.truncated()
            } else {
                s.truncated()
            };
            &&& exponent < 127 ==> whole == 0
            &&& 127 <= exponent < 150 ==> whole * pow2((150 - exponent) as nat) <= mantissa
                && mantissa < (whole + 1) * pow2((150 - exponent) as nat)
            &&& exponent >= 150 ==> whole == mantissa * pow2((exponent - 150) as nat)
        }),
{
    if s.magnitude() < 0x4F00_0000 {
        let exponent = s.magnitude() / 0x80_0000;
        let mantissa = 0x80_0000 + s.magnitude() % 0x80_0000;
        if 127 <= exponent < 150 {
            let by = (150 - exponent) as nat;
            lemma_whole_fits(mantissa, by);
            lemma_pow2_pos(by);
            let p = pow2(by) as int;
            let w = mantissa / p;
            assert(w * p <= mantissa && mantissa < (w + 1) * p) by (nonlinear_arith)
                requires
                    w == mantissa / p,
                    p > 0,
                    mantissa >= 0,
            ;
        } else if exponent >= 150 {
            lemma_shift_fits(mantissa, (exponent - 150) as nat);
            assert(mantissa * pow2((exponent - 150) as nat) >= 0) by (nonlinear_arith)
                requires
                    mantissa >= 0,
            ;
        }
    }
}

/// A clamped number lies between the bounds, and is the number itself where that lies there.
pub proof fn law_clamped_number_is_within(s: Scalar, lo: Scalar, hi: Scalar)
    requires
        !s.nan(),
        !lo.nan(),
        !hi.nan(),
        lo.rank() <= hi.rank(),
    ensures
        lo.rank() <= s.clamped(lo, hi).rank() <= hi.rank(),
        !s.clamped(lo, hi).nan(),
        lo.rank() <= s.rank() <= hi.rank() ==> s.clamped(lo, hi) == s,
        s.rank() < lo.rank() ==> s.clamped(lo, hi) == lo,
        s.rank() > hi.rank() ==> s.clamped(lo, hi) == hi,
{
}

} // verus!
