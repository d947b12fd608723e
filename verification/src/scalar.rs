//! Single-precision numbers as the renderer stores and orders them.
//!
//! The library keeps every real-valued quantity (positions, distances, fog
//! weights) as the 32 bits of its IEEE-754 binary32 encoding. It never does
//! real arithmetic: it stores such numbers, orders them, turns their sign,
//! takes their integer part and their floor, and makes them from integers.
//! All of these are functions of the bits alone and are stated here over
//! plain integers.

use vstd::prelude::*;
use vstd::arithmetic::power2::lemma2_to64;
use vstd::arithmetic::power2::lemma_pow2_adds;
use vstd::arithmetic::power2::lemma_pow2_pos;
use vstd::arithmetic::power2::lemma_pow2_strictly_increases;
use vstd::arithmetic::power2::lemma_pow2_unfold;
use vstd::arithmetic::power2::pow2;
use vstd::bits::lemma_u64_shl_is_mul;
use vstd::bits::lemma_u64_shr_is_div;

verus! {

/// Bit pattern of the sign bit alone (which is also negative zero).
pub const SIGN_BIT: u32 = 0x8000_0000;

/// Bit pattern of positive infinity: every larger magnitude is not a number.
pub const INFINITY_BITS: u32 = 0x7f80_0000;

/// Weight of the lowest exponent bit: the significand has 23 stored bits.
pub const FRACTION_RANGE: u32 = 0x80_0000;

/// Bit pattern of `1.0`.
pub const ONE_BITS: u32 = 0x3f80_0000;

/// Bit pattern of the largest finite number.
pub const MAX_BITS: u32 = 0x7f7f_ffff;

/// The place of the highest binary digit of `m`: the `e` for which `m` is at
/// least `2^e` and less than `2^(e+1)`; 0 for numbers below 2.
pub open spec fn log2_floor(m: int) -> int
    decreases m,
{
    if m <= 1 {
        0
    } else {
        1 + log2_floor(m / 2)
    }
}

/// The 24 leading binary digits of `m`, as a number from `2^23` to `2^24`:
/// `m` scaled up to 24 digits where it has fewer, and rounded to them where
/// it has more, to the nearer neighbor and of two equally near ones to the
/// even one.
pub open spec fn rounded_significand(m: int) -> int {
    let e = log2_floor(m);
    if e <= 23 {
        m * pow2((23 - e) as nat)
    } else {
        let unit = pow2((e - 23) as nat) as int;
        let kept = m / unit;
        let rest = m % unit;
        if 2 * rest > unit || (2 * rest == unit && kept % 2 == 1) {
            kept + 1
        } else {
            kept
        }
    }
}

/// A number with highest binary digit at place `e` has `log2_floor` `e`.
pub proof fn lemma_log2_floor_is(m: int, e: nat)
    requires
        pow2(e) <= m < pow2(e + 1),
    ensures
        log2_floor(m) == e,
    decreases e,
{
    lemma2_to64();
    if e == 0 {
        assert(m == 1);
    } else {
        lemma_pow2_unfold(e);
        lemma_pow2_unfold(e + 1);
        lemma_pow2_pos((e - 1) as nat);
        lemma_log2_floor_is(m / 2, (e - 1) as nat);
    }
}

/// The highest binary digit of `m` is at the place that `log2_floor`
/// names.
pub proof fn lemma_log2_floor_bounds(m: int)
    requires
        m >= 1,
    ensures
        log2_floor(m) >= 0,
        pow2(log2_floor(m) as nat) <= m < pow2((log2_floor(m) + 1) as nat),
    decreases m,
{
    lemma2_to64();
    if m > 1 {
        lemma_log2_floor_bounds(m / 2);
        let e = log2_floor(m / 2);
        lemma_pow2_unfold((e + 1) as nat);
        lemma_pow2_unfold((e + 2) as nat);
    }
}

/// A binary32 number held by its bit pattern.
///
/// `==` on this type compares bit patterns, so it tells `0.0` from `-0.0`;
/// use [`Scalar::lt`] and [`Scalar::le`] for the numeric order.
#[derive(Clone, Copy, Debug, PartialEq, Eq, Structural)]
pub struct Scalar {
    pub bits: u32,
}

impl Scalar {
    /// The bits without the sign.
    pub open spec fn magnitude(self) -> int {
        if self.bits >= SIGN_BIT {
            self.bits - SIGN_BIT
        } else {
            self.bits as int
        }
    }

    /// The sign bit is set.
    pub open spec fn is_negative(self) -> bool {
        self.bits >= SIGN_BIT
    }

    /// The pattern encodes no number.
    pub open spec fn is_nan(self) -> bool {
        self.magnitude() > INFINITY_BITS
    }

    /// An integer that orders the numbers as their values do: both zeros
    /// get 0, and among patterns of one sign a larger magnitude is further
    /// from zero.
    pub open spec fn rank(self) -> int {
        if self.is_negative() {
            -self.magnitude()
        } else {
            self.magnitude()
        }
    }

    /// `self < other` as numbers; false when either is not a number.
    pub open spec fn spec_lt(self, other: Scalar) -> bool {
        !self.is_nan() && !other.is_nan() && self.rank() < other.rank()
    }

    /// `self <= other` as numbers; false when either is not a number.
    pub open spec fn spec_le(self, other: Scalar) -> bool {
        !self.is_nan() && !other.is_nan() && self.rank() <= other.rank()
    }

    /// `self == other` as numbers: neither is less than the other, and both
    /// are numbers. The two zeros are the same number.
    pub open spec fn spec_same(self, other: Scalar) -> bool {
        self.spec_le(other) && other.spec_le(self)
    }

    /// The biased exponent field, 0 to 255.
    pub open spec fn exponent(self) -> int {
        self.magnitude() / (FRACTION_RANGE as int)
    }

    /// The stored significand bits, below 2^23.
    pub open spec fn fraction(self) -> int {
        self.magnitude() % (FRACTION_RANGE as int)
    }

    /// The integer part of the absolute value, for exponents 127 to 157
    /// (values from 1 up to, not including, 2^31): the 24-bit significand
    /// scaled by two to the power of the unbiased exponent less 23.
    pub open spec fn whole_magnitude(self) -> int {
        let significand = FRACTION_RANGE + self.fraction();
        if self.exponent() >= 150 {
            significand * pow2((self.exponent() - 150) as nat)
        } else {
            significand / (pow2((150 - self.exponent()) as nat) as int)
        }
    }

    /// The number rounded toward zero and saturated to the `i32` range;
    /// 0 for what is not a number. This is what a cast to `i32` gives.
    pub open spec fn spec_trunc(self) -> int {
        if self.is_nan() || self.exponent() < 127 {
            0
        } else if self.exponent() >= 158 {
            if self.is_negative() {
                i32::MIN as int
            } else {
                i32::MAX as int
            }
        } else if self.is_negative() {
            -self.whole_magnitude()
        } else {
            self.whole_magnitude()
        }
    }

    /// The number is no integer: it has a part after the point. What is not
    /// a number, and the infinite, have none.
    pub open spec fn has_fraction(self) -> bool {
        if self.magnitude() == 0 {
            false
        } else if self.exponent() < 127 {
            true
        } else if self.exponent() >= 150 {
            false
        } else {
            (FRACTION_RANGE + self.fraction()) % (pow2((150 - self.exponent()) as nat) as int)
                != 0
        }
    }

    /// The greatest integer that is not above the number, saturated to the
    /// `i32` range; 0 for what is not a number. It is the integer part, and
    /// one less for a negative number that is no integer.
    pub open spec fn spec_floor(self) -> int {
        if self.is_negative() && self.has_fraction() {
            self.spec_trunc() - 1
        } else {
            self.spec_trunc()
        }
    }

    /// The number nearest to the integer `n`: `n` itself where it has at most
    /// 24 binary digits, else `n` rounded to its 24 leading digits.
    pub open spec fn spec_from_i32(n: i32) -> Scalar {
        if n == 0 {
            Scalar { bits: 0 }
        } else {
            let m = if n < 0 {
                -n
            } else {
                n as int
            };
            let magnitude = (127 + log2_floor(m)) * FRACTION_RANGE + rounded_significand(m)
                - FRACTION_RANGE;
            Scalar {
                bits: (if n < 0 {
                    SIGN_BIT + magnitude
                } else {
                    magnitude
                }) as u32,
            }
        }
    }

    /// The number nearest to the integer `n`, as a cast of `n` gives it.
    pub fn from_i32(n: i32) -> (s: Scalar)
        ensures
            s == Self::spec_from_i32(n),
    {
        if n == 0 {
            return Scalar { bits: 0 };
        }
        let m: u64 = if n < 0 {
            (-(n as i64)) as u64
        } else {
            n as u64
        };
        let mut e: u32 = 0;
        let mut top: u64 = 1;
        proof {
            lemma2_to64();
        }
        while top * 2 <= m
            invariant
                1 <= m <= 0x8000_0000,
                top == pow2(e as nat),
                top <= m,
                e <= 31,
            decreases m - top,
        {
            proof {
                lemma_pow2_unfold((e + 1) as nat);
                lemma2_to64();
                if e + 1 > 31 {
                    lemma_pow2_strictly_increases(31, (e + 1) as nat);
                }
            }
            top = top * 2;
            e = e + 1;
        }
        proof {
            lemma_pow2_unfold((e + 1) as nat);
            lemma_log2_floor_is(m as int, e as nat);
        }
        let significand: u64 = if e <= 23 {
            let mut scaled: u64 = m;
            let mut k: u32 = e;
            let mut high: u64 = top;
            proof {
                lemma2_to64();
                assert(m * pow2(0) == m) by (nonlinear_arith)
                    requires
                        pow2(0) == 1,
                ;
            }
            while k < 23
                invariant
                    e <= k <= 23,
                    high == pow2(k as nat),
                    high <= scaled < 2 * high,
                    scaled == m * pow2((k - e) as nat),
                decreases 23 - k,
            {
                proof {
                    lemma_pow2_unfold((k + 1) as nat);
                    lemma_pow2_unfold((k + 1 - e) as nat);
                    lemma2_to64();
                    lemma_pow2_strictly_increases(k as nat, 23);
                    assert(2 * (m * pow2((k - e) as nat)) == m * (2 * pow2((k - e) as nat)))
                        by (nonlinear_arith);
                }
                scaled = scaled * 2;
                high = high * 2;
                k = k + 1;
            }
            scaled
        } else {
            let mut unit: u64 = 1;
            let mut j: u32 = 0;
            proof {
                lemma2_to64();
            }
            while j < e - 23
                invariant
                    24 <= e <= 31,
                    j <= e - 23,
                    unit == pow2(j as nat),
                    unit <= 0x100,
                decreases e - 23 - j,
            {
                proof {
                    lemma_pow2_unfold((j + 1) as nat);
                    lemma2_to64();
                    lemma_pow2_strictly_increases(j as nat, 8);
                }
                unit = unit * 2;
                j = j + 1;
            }
            proof {
                lemma2_to64();
                lemma_pow2_adds(23, (e - 23) as nat);
                lemma_pow2_unfold((e + 1) as nat);
                assert(0x80_0000 <= m / unit < 0x100_0000) by (nonlinear_arith)
                    requires
                        unit > 0,
                        0x80_0000 * unit <= m,
                        m < 2 * (0x80_0000 * unit),
                ;
            }
            let kept: u64 = m / unit;
            let rest: u64 = m % unit;
            if 2 * rest > unit || (2 * rest == unit && kept % 2 == 1) {
                kept + 1
            } else {
                kept
            }
        };
        proof {
            lemma2_to64();
            assert(0x80_0000 <= significand <= 0x100_0000);
            assert((127 + e) * 0x80_0000 <= 158 * 0x80_0000) by (nonlinear_arith)
                requires
                    e <= 31,
            ;
        }
        let magnitude: u64 = (127 + e as u64) * (FRACTION_RANGE as u64) + significand
            - FRACTION_RANGE as u64;
        if n < 0 {
            Scalar { bits: (SIGN_BIT as u64 + magnitude) as u32 }
        } else {
            Scalar { bits: magnitude as u32 }
        }
    }

    /// The number with the given bit pattern.
    pub fn from_bits(bits: u32) -> (s: Scalar)
        ensures
            s.bits == bits,
    {
        Scalar { bits }
    }

    /// The number's bit pattern.
    pub fn to_bits(self) -> (bits: u32)
        ensures
            bits == self.bits,
    {
        self.bits
    }

    /// Positive zero.
    pub fn zero() -> (s: Scalar)
        ensures
            s.bits == 0,
            s.rank() == 0,
            !s.is_nan(),
    {
        Scalar { bits: 0 }
    }

    /// The number one.
    pub fn one() -> (s: Scalar)
        ensures
            s.bits == ONE_BITS,
            s.rank() == ONE_BITS,
            !s.is_nan(),
    {
        Scalar { bits: ONE_BITS }
    }

    /// The largest finite number.
    pub fn max_value() -> (s: Scalar)
        ensures
            s.bits == MAX_BITS,
            s.rank() == MAX_BITS,
            !s.is_nan(),
    {
        Scalar { bits: MAX_BITS }
    }

    fn magnitude_bits(self) -> (m: u32)
        ensures
            m == self.magnitude(),
            m < SIGN_BIT,
    {
        if self.bits >= SIGN_BIT {
            self.bits - SIGN_BIT
        } else {
            self.bits
        }
    }

    fn rank_value(self) -> (r: i64)
        ensures
            r == self.rank(),
    {
        let m: u32 = self.magnitude_bits();
        if self.bits >= SIGN_BIT {
            -(m as i64)
        } else {
            m as i64
        }
    }

    /// The number with the other sign: the same bits but for the sign bit.
    pub open spec fn spec_neg(self) -> Scalar {
        if self.bits >= SIGN_BIT {
            Scalar { bits: (self.bits - SIGN_BIT) as u32 }
        } else {
            Scalar { bits: (self.bits + SIGN_BIT) as u32 }
        }
    }

    /// The number with the other sign.
    pub fn neg(self) -> (n: Scalar)
        ensures
            n == self.spec_neg(),
            n.magnitude() == self.magnitude(),
            n.is_negative() != self.is_negative(),
            n.rank() == -self.rank(),
            n.spec_neg() == self,
    {
        if self.bits >= SIGN_BIT {
            Scalar { bits: self.bits - SIGN_BIT }
        } else {
            Scalar { bits: self.bits + SIGN_BIT }
        }
    }

    /// Whether the pattern encodes no number.
    pub fn is_not_a_number(self) -> (b: bool)
        ensures
            b == self.is_nan(),
    {
        self.magnitude_bits() > INFINITY_BITS
    }

    /// `self < other` as numbers.
    pub fn lt(self, other: Scalar) -> (b: bool)
        ensures
            b == self.spec_lt(other),
    {
        !self.is_not_a_number() && !other.is_not_a_number() && self.rank_value()
            < other.rank_value()
    }

    /// `self <= other` as numbers.
    pub fn le(self, other: Scalar) -> (b: bool)
        ensures
            b == self.spec_le(other),
    {
        !self.is_not_a_number() && !other.is_not_a_number() && self.rank_value()
            <= other.rank_value()
    }

    /// `self > other` as numbers.
    pub fn gt(self, other: Scalar) -> (b: bool)
        ensures
            b == other.spec_lt(self),
    {
        other.lt(self)
    }

    /// `self >= other` as numbers.
    pub fn ge(self, other: Scalar) -> (b: bool)
        ensures
            b == other.spec_le(self),
    {
        other.le(self)
    }

    /// Whether the number is no integer.
    pub fn is_fractional(self) -> (b: bool)
        ensures
            b == self.has_fraction(),
    {
        let m: u32 = self.magnitude_bits();
        let exponent: u32 = m / FRACTION_RANGE;
        let fraction: u32 = m % FRACTION_RANGE;
        if m == 0 {
            false
        } else if exponent < 127 {
            true
        } else if exponent >= 150 {
            false
        } else {
            let shift: u64 = (150 - exponent) as u64;
            proof {
                lemma2_to64();
                lemma_pow2_strictly_increases(shift as nat, 24);
                lemma_pow2_pos(shift as nat);
                lemma_u64_shl_is_mul(1, shift);
            }
            let unit: u64 = 1u64 << shift;
            (FRACTION_RANGE + fraction) as u64 % unit != 0
        }
    }

    /// The greatest integer that is not above the number: the cell of the
    /// grid in which a coordinate lies.
    pub fn floor(self) -> (cell: i32)
        ensures
            cell == self.spec_floor(),
    {
        let whole: i32 = self.trunc();
        if self.bits >= SIGN_BIT && self.is_fractional() {
            proof {
                if self.exponent() >= 127 {
                    lemma_pow2_pos((150 - self.exponent()) as nat);
                    let significand = FRACTION_RANGE + self.fraction();
                    let unit = pow2((150 - self.exponent()) as nat) as int;
                    assert(significand / unit <= significand) by (nonlinear_arith)
                        requires
                            unit > 0,
                            significand >= 0,
                    ;
                }
            }
            whole - 1
        } else {
            whole
        }
    }

    /// The integer part, as a cast to `i32` takes it.
    pub fn trunc(self) -> (cell: i32)
        ensures
            cell == self.spec_trunc(),
    {
        let m: u32 = self.magnitude_bits();
        let exponent: u32 = m / FRACTION_RANGE;
        let fraction: u32 = m % FRACTION_RANGE;
        if m > INFINITY_BITS || exponent < 127 {
            return 0;
        }
        let negative: bool = self.bits >= SIGN_BIT;
        if exponent >= 158 {
            return if negative {
                i32::MIN
            } else {
                i32::MAX
            };
        }
        let significand: u64 = (FRACTION_RANGE + fraction) as u64;
        let whole: u64 = if exponent >= 150 {
            let shift: u64 = (exponent - 150) as u64;
            proof {
                lemma2_to64();
                lemma_pow2_strictly_increases(shift as nat, 8);
                assert(significand * pow2(shift as nat) <= 0x100_0000 * 0x100) by (nonlinear_arith)
                    requires
                        significand < 0x100_0000,
                        pow2(shift as nat) < 0x100,
                ;
                lemma_u64_shl_is_mul(significand, shift);
            }
            significand << shift
        } else {
            let shift: u64 = (150 - exponent) as u64;
            proof {
                lemma_u64_shr_is_div(significand, shift);
            }
            significand >> shift
        };
        proof {
            if exponent >= 150 {
                lemma2_to64();
                lemma_pow2_strictly_increases((exponent - 150) as nat, 8);
                assert(whole < 0x8000_0000) by (nonlinear_arith)
                    requires
                        whole == significand * pow2((exponent - 150) as nat),
                        significand < 0x100_0000,
                        pow2((exponent - 150) as nat) <= 0x80,
                ;
            } else {
                lemma_pow2_pos((150 - exponent) as nat);
                assert(whole <= significand) by (nonlinear_arith)
                    requires
                        whole == significand as nat / pow2((150 - exponent) as nat),
                        pow2((150 - exponent) as nat) > 0,
                ;
            }
        }
        if negative {
            -(whole as i32)
        } else {
            whole as i32
        }
    }
}

/// An integer of at most 24 binary digits is a number: it goes into one
/// and comes back out of it unchanged.
pub proof fn lemma_from_i32_round_trip(n: i32)
    requires
        -0x100_0000 <= n <= 0x100_0000,
    ensures
        Scalar::spec_from_i32(n).spec_trunc() == n,
        !Scalar::spec_from_i32(n).is_nan(),
{
    lemma2_to64();
    if n != 0 {
        let m: int = if n < 0 {
            -n
        } else {
            n as int
        };
        let e = log2_floor(m);
        lemma_log2_floor_bounds(m);
        if e >= 25 {
            lemma_pow2_strictly_increases(24, e as nat);
        }
        let s = Scalar::spec_from_i32(n);
        if e <= 23 {
            let scale = pow2((23 - e) as nat) as int;
            let significand = m * scale;
            lemma_pow2_adds(e as nat, (23 - e) as nat);
            lemma_pow2_adds((e + 1) as nat, (23 - e) as nat);
            lemma_pow2_pos((23 - e) as nat);
            assert(0x80_0000 <= significand < 0x100_0000) by (nonlinear_arith)
                requires
                    significand == m * scale,
                    pow2(e as nat) <= m < pow2((e + 1) as nat),
                    pow2(e as nat) * scale == 0x80_0000,
                    pow2((e + 1) as nat) * scale == 0x100_0000,
                    scale > 0,
            ;
            assert((127 + e) * 0x80_0000 + significand - 0x80_0000 < 0x8000_0000);
            assert(s.magnitude() == (127 + e) * 0x80_0000 + significand - 0x80_0000);
            assert(s.exponent() == 127 + e);
            assert(s.fraction() == significand - 0x80_0000);
            assert((m * scale) / scale == m) by (nonlinear_arith)
                requires
                    scale > 0,
            ;
            if e == 23 {
                assert(scale == 1);
                assert(significand == m) by (nonlinear_arith)
                    requires
                        significand == m * scale,
                        scale == 1,
                ;
                assert(s.whole_magnitude() == significand * pow2(0));
                assert(significand * pow2(0) == significand) by (nonlinear_arith)
                    requires
                        pow2(0) == 1,
                ;
            } else {
                assert((150 - s.exponent()) as nat == (23 - e) as nat);
                assert(s.whole_magnitude() == (FRACTION_RANGE + s.fraction()) / (pow2(
                    (150 - s.exponent()) as nat,
                ) as int));
                assert(s.whole_magnitude() == significand / scale);
            }
            assert(s.whole_magnitude() == m);
        } else {
            assert(e == 24);
            assert(m == 0x100_0000);
            assert(rounded_significand(m) == 0x80_0000);
            assert(s.magnitude() == 151 * 0x80_0000);
            assert(s.exponent() == 151);
            assert(s.fraction() == 0);
            assert(pow2(1) == 2);
            assert(s.whole_magnitude() == (FRACTION_RANGE + 0) * pow2(1));
            assert(s.whole_magnitude() == 0x100_0000);
        }
    }
}

} // verus!
