//! Binary64 values as bit patterns, with the order and sign rules of IEEE-754.
use vstd::arithmetic::power2::{lemma_pow2_pos, lemma_pow2_strictly_increases, lemma_pow2_unfold, pow2};
use vstd::prelude::*;

verus! {

/// The sign bit of a binary64 pattern.
pub const SIGN_BIT: u64 = 0x8000_0000_0000_0000;

/// The pattern of positive infinity; every larger magnitude is a NaN.
pub const INFINITY_BITS: u64 = 0x7FF0_0000_0000_0000;

/// Two to the 52nd: the implicit leading bit of a normal significand.
pub const HIDDEN_BIT: u64 = 0x0010_0000_0000_0000;

/// The pattern of 1.0.
pub const ONE_BITS: u64 = 0x3FF0_0000_0000_0000;

/// A binary64 value, held as its 64-bit pattern.
///
/// `==` on this type compares patterns. Numeric comparison, under which the
/// two zeros are equal and a NaN equals nothing, is [`Scalar::same_number`].
#[derive(Clone, Copy, Debug, PartialEq, Eq, Structural)]
pub struct Scalar {
    pub bits: u64,
}

/// What a pattern without its sign is worth, in units of 2^-1074.
///
/// Below 2^52 the pattern is subnormal and counts itself; above, the low 52
/// bits extend the hidden bit and the high bits pick the power of two. The
/// pattern of infinity lands on 2^2098, one binade above every finite value.
pub open spec fn weight(magnitude: int) -> int {
    if magnitude < HIDDEN_BIT {
        magnitude
    } else {
        (HIDDEN_BIT + magnitude % (HIDDEN_BIT as int)) * pow2(
            (magnitude / (HIDDEN_BIT as int) - 1) as nat,
        )
    }
}

/// A larger pattern is a larger number: `weight` is strictly increasing.
pub proof fn lemma_weight_increases(m1: int, m2: int)
    requires
        0 <= m1 < m2,
    ensures
        0 <= weight(m1) < weight(m2),
{
    let h = HIDDEN_BIT as int;
    let e1 = m1 / h;
    let e2 = m2 / h;
    let f1 = m1 % h;
    let f2 = m2 % h;
    assert(m1 == h * e1 + f1 && 0 <= f1 < h) by {
        vstd::arithmetic::div_mod::lemma_fundamental_div_mod(m1, h);
    }
    assert(m2 == h * e2 + f2 && 0 <= f2 < h) by {
        vstd::arithmetic::div_mod::lemma_fundamental_div_mod(m2, h);
    }
    if m2 < h {
    } else if m1 < h {
        let large = pow2((e2 - 1) as nat) as int;
        lemma_pow2_pos((e2 - 1) as nat);
        assert((h + f2) * large >= h) by (nonlinear_arith)
            requires
                large >= 1,
                f2 >= 0,
                h > 0,
        ;
    } else {
        assert(e1 >= 1);
        assert(e1 <= e2) by (nonlinear_arith)
            requires
                m1 < m2,
                m1 == h * e1 + f1,
                m2 == h * e2 + f2,
                0 <= f1 < h,
                0 <= f2 < h,
        ;
        let small = pow2((e1 - 1) as nat) as int;
        let large = pow2((e2 - 1) as nat) as int;
        lemma_pow2_pos((e1 - 1) as nat);
        lemma_pow2_pos((e2 - 1) as nat);
        if e1 == e2 {
            assert(f1 < f2);
            assert((h + f1) * small < (h + f2) * small) by (nonlinear_arith)
                requires
                    f1 < f2,
                    small >= 1,
            ;
        } else {
            lemma_pow2_unfold(e1 as nat);
            assert(pow2(e1 as nat) <= pow2((e2 - 1) as nat)) by {
                if e1 < e2 - 1 {
                    lemma_pow2_strictly_increases(e1 as nat, (e2 - 1) as nat);
                }
            }
            assert((h + f1) * small < (h + f2) * large) by (nonlinear_arith)
                requires
                    0 <= f1 < h,
                    0 <= f2,
                    small >= 1,
                    2 * small <= large,
            ;
        }
        assert((h + f1) * small >= 0) by (nonlinear_arith)
            requires
                0 <= f1,
                h > 0,
                small >= 1,
        ;
    }
}

impl Scalar {
    /// Whether the sign bit is set.
    pub open spec fn negative(self) -> bool {
        self.bits >= SIGN_BIT
    }

    /// The pattern without its sign bit.
    pub open spec fn magnitude(self) -> int {
        if self.bits >= SIGN_BIT {
            self.bits - SIGN_BIT
        } else {
            self.bits as int
        }
    }

    /// Not a number: the exponent is all ones and the fraction is not zero.
    pub open spec fn nan(self) -> bool {
        self.magnitude() > INFINITY_BITS
    }

    /// A zero, a subnormal or a normal number.
    pub open spec fn finite(self) -> bool {
        self.magnitude() < INFINITY_BITS
    }

    /// The number this value stands for, in units of 2^-1074.
    ///
    /// Every finite binary64 is a whole number of such units. The infinities
    /// are given plus and minus 2^2098, outside every finite value, so that
    /// `<` on this measure is the numeric order of all values but the NaNs.
    pub open spec fn scaled(self) -> int {
        if self.negative() {
            -weight(self.magnitude())
        } else {
            weight(self.magnitude())
        }
    }

    /// The value with the sign bit flipped.
    pub open spec fn opposite(self) -> Scalar {
        if self.negative() {
            Scalar { bits: (self.bits - SIGN_BIT) as u64 }
        } else {
            Scalar { bits: (self.bits + SIGN_BIT) as u64 }
        }
    }

    /// The value with the sign bit cleared.
    pub open spec fn magnitude_only(self) -> Scalar {
        Scalar { bits: self.magnitude() as u64 }
    }

    /// Numeric `<`: false when either side is a NaN.
    pub open spec fn below(self, other: Scalar) -> bool {
        !self.nan() && !other.nan() && self.scaled() < other.scaled()
    }

    /// Numeric `<=`: false when either side is a NaN.
    pub open spec fn at_most(self, other: Scalar) -> bool {
        !self.nan() && !other.nan() && self.scaled() <= other.scaled()
    }

    /// Numeric `==`: false when either side is a NaN, true of the two zeros.
    pub open spec fn equals(self, other: Scalar) -> bool {
        !self.nan() && !other.nan() && self.scaled() == other.scaled()
    }

    /// The value with the given pattern.
    pub fn from_bits(bits: u64) -> (r: Scalar)
        ensures
            r == (Scalar { bits }),
    {
        Scalar { bits }
    }

    /// The pattern of this value.
    pub fn to_bits(self) -> (r: u64)
        ensures
            r == self.bits,
    {
        self.bits
    }

    /// Whether the sign bit is set. True of negative zero and of a NaN with
    /// the bit set.
    pub fn is_sign_negative(self) -> (r: bool)
        ensures
            r == self.negative(),
    {
        self.bits >= SIGN_BIT
    }

    /// The pattern without the sign bit, as a signed integer whose order is
    /// the order of the numbers.
    fn key(self) -> (k: i64)
        ensures
            k == if self.negative() { -self.magnitude() } else { self.magnitude() },
    {
        if self.bits >= SIGN_BIT {
            let m: u64 = self.bits - SIGN_BIT;
            -(m as i64)
        } else {
            self.bits as i64
        }
    }

    pub fn is_nan(self) -> (r: bool)
        ensures
            r == self.nan(),
    {
        let k = self.key();
        k > INFINITY_BITS as i64 || k < -(INFINITY_BITS as i64)
    }

    /// Numeric `<`.
    pub fn lt(self, other: Scalar) -> (r: bool)
        ensures
            r == self.below(other),
    {
        if self.is_nan() || other.is_nan() {
            return false;
        }
        proof {
            lemma_order(self, other);
        }
        self.key() < other.key()
    }

    /// Numeric `<=`.
    pub fn le(self, other: Scalar) -> (r: bool)
        ensures
            r == self.at_most(other),
    {
        if self.is_nan() || other.is_nan() {
            return false;
        }
        proof {
            lemma_order(self, other);
        }
        self.key() <= other.key()
    }

    /// Numeric `>`.
    pub fn gt(self, other: Scalar) -> (r: bool)
        ensures
            r == other.below(self),
    {
        other.lt(self)
    }

    /// Numeric `>=`.
    pub fn ge(self, other: Scalar) -> (r: bool)
        ensures
            r == other.at_most(self),
    {
        other.le(self)
    }

    /// Numeric `==`: the two zeros are the same number, a NaN is none.
    pub fn same_number(self, other: Scalar) -> (r: bool)
        ensures
            r == self.equals(other),
    {
        if self.is_nan() || other.is_nan() {
            return false;
        }
        proof {
            lemma_order(self, other);
        }
        self.key() == other.key()
    }

    /// The value with the sign bit flipped. A number becomes its opposite; a
    /// NaN stays a NaN.
    pub fn negated(self) -> (r: Scalar)
        ensures
            r == self.opposite(),
            r.magnitude() == self.magnitude(),
            r.negative() == !self.negative(),
            r.scaled() == -self.scaled(),
            r.nan() == self.nan(),
    {
        if self.bits >= SIGN_BIT {
            Scalar { bits: self.bits - SIGN_BIT }
        } else {
            Scalar { bits: self.bits + SIGN_BIT }
        }
    }

    /// The value with the sign bit cleared.
    pub fn abs(self) -> (r: Scalar)
        ensures
            r == self.magnitude_only(),
            r.magnitude() == self.magnitude(),
            !r.negative(),
            r.scaled() == if self.scaled() < 0 { -self.scaled() } else { self.scaled() },
            r.nan() == self.nan(),
    {
        proof {
            if 0 < self.magnitude() {
                lemma_weight_increases(0, self.magnitude());
            }
        }
        if self.bits >= SIGN_BIT {
            Scalar { bits: self.bits - SIGN_BIT }
        } else {
            self
        }
    }

    /// The smaller of two values, passing over a NaN: if one side is a NaN
    /// the other side is returned. Of two equal numbers the second is
    /// returned.
    pub fn min(self, other: Scalar) -> (r: Scalar)
        ensures
            r == self.lesser(other),
    {
        if other.is_nan() {
            self
        } else if self.lt(other) {
            self
        } else {
            other
        }
    }

    /// The larger of two values, passing over a NaN: if one side is a NaN the
    /// other side is returned. Of two equal numbers the second is returned.
    pub fn max(self, other: Scalar) -> (r: Scalar)
        ensures
            r == self.greater(other),
    {
        if other.is_nan() {
            self
        } else if other.lt(self) {
            self
        } else {
            other
        }
    }

    /// What [`Scalar::min`] returns.
    pub open spec fn lesser(self, other: Scalar) -> Scalar {
        if other.nan() {
            self
        } else if self.below(other) {
            self
        } else {
            other
        }
    }

    /// What [`Scalar::max`] returns.
    pub open spec fn greater(self, other: Scalar) -> Scalar {
        if other.nan() {
            self
        } else if other.below(self) {
            self
        } else {
            other
        }
    }

    /// Positive zero.
    pub fn zero() -> (r: Scalar)
        ensures
            r == (Scalar { bits: 0 }),
            r.scaled() == 0,
    {
        Scalar { bits: 0 }
    }

    /// The number one.
    pub fn one() -> (r: Scalar)
        ensures
            r == (Scalar { bits: ONE_BITS }),
            r.scaled() == pow2(1074),
    {
        proof {
            lemma_one();
        }
        Scalar { bits: ONE_BITS }
    }

    /// Positive infinity.
    pub fn infinity() -> (r: Scalar)
        ensures
            r.bits == INFINITY_BITS,
            !r.nan(),
            !r.finite(),
            !r.negative(),
    {
        Scalar { bits: INFINITY_BITS }
    }

    /// Negative infinity.
    pub fn neg_infinity() -> (r: Scalar)
        ensures
            r.bits == INFINITY_BITS + SIGN_BIT,
            !r.nan(),
            !r.finite(),
            r.negative(),
    {
        Scalar { bits: INFINITY_BITS + SIGN_BIT }
    }
}

/// The pattern of 1.0 is worth 2^1074 units of 2^-1074.
pub proof fn lemma_one()
    ensures
        (Scalar { bits: ONE_BITS }).scaled() == pow2(1074),
        !(Scalar { bits: ONE_BITS }).nan(),
        !(Scalar { bits: ONE_BITS }).negative(),
{
    let h = HIDDEN_BIT as int;
    assert(ONE_BITS as int / h == 1023 && ONE_BITS as int % h == 0);
    vstd::arithmetic::power2::lemma2_to64_rest();
    vstd::arithmetic::power2::lemma_pow2_adds(52, 1022);
}

/// For two values that are numbers, the signed patterns are ordered as the
/// numbers are.
pub proof fn lemma_order(a: Scalar, b: Scalar)
    requires
        !a.nan(),
        !b.nan(),
    ensures
        a.scaled() < b.scaled() <==> signed_pattern(a) < signed_pattern(b),
        a.scaled() == b.scaled() <==> signed_pattern(a) == signed_pattern(b),
{
    let ma = a.magnitude();
    let mb = b.magnitude();
    if ma < mb {
        lemma_weight_increases(ma, mb);
    } else if mb < ma {
        lemma_weight_increases(mb, ma);
    }
    if 0 < ma {
        lemma_weight_increases(0, ma);
    }
    if 0 < mb {
        lemma_weight_increases(0, mb);
    }
}

/// The magnitude with the sign applied: the integer by which patterns compare.
pub open spec fn signed_pattern(a: Scalar) -> int {
    if a.negative() {
        -a.magnitude()
    } else {
        a.magnitude()
    }
}

} // verus!
