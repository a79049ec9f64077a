//! Exact conversions between integers and binary64 patterns.
use crate::modules::scalar::{
    lemma_one, lemma_weight_increases, Scalar, HIDDEN_BIT, INFINITY_BITS, ONE_BITS,
};
use vstd::arithmetic::div_mod::{
    lemma_div_multiples_vanish_quotient, lemma_fundamental_div_mod_converse,
};
use vstd::arithmetic::power2::{
    lemma2_to64, lemma2_to64_rest, lemma_pow2_adds, lemma_pow2_pos, lemma_pow2_strictly_increases,
    lemma_pow2_unfold, pow2,
};
use vstd::bits::lemma_u64_shr_is_div;
use vstd::prelude::*;

verus! {

/// The biased exponent under which a significand counts whole units of one.
pub const UNIT_EXPONENT: u64 = 1075;

/// The biased exponent under which a 53-bit significand counts units of 2^-53.
pub const FRACTION_EXPONENT: u64 = 1022;

/// Two to the 11th: what a 64-bit draw is divided by to keep its high 53
/// bits.
pub const DISCARDED: u64 = 2048;

/// The positive value `significand * 2^(exponent - 1075)`.
///
/// The significand is doubled, and the exponent lowered, until the hidden bit
/// is set; the pattern is then the exponent field followed by the low 52 bits.
fn compose(significand: u64, exponent: u64) -> (r: Scalar)
    requires
        0 < significand < 2 * HIDDEN_BIT,
        53 <= exponent <= 2046,
    ensures
        !r.negative(),
        r.finite(),
        r.scaled() == significand * pow2((exponent - 1) as nat),
{
    let mut m: u64 = significand;
    let mut e: u64 = exponent;
    let ghost mut k: nat = 0;
    proof {
        lemma2_to64();
        lemma2_to64_rest();
    }
    while m < HIDDEN_BIT
        invariant
            0 < m < 2 * HIDDEN_BIT,
            e + k == exponent,
            k <= 52,
            53 <= exponent <= 2046,
            m >= pow2(k),
            m * pow2((e - 1) as nat) == significand * pow2((exponent - 1) as nat),
            pow2(52) == HIDDEN_BIT,
        decreases 53 - k,
    {
        proof {
            if k >= 52 {
                if k > 52 {
                    lemma_pow2_strictly_increases(52, k);
                }
                assert(false);
            }
            lemma_pow2_unfold((e - 1) as nat);
            lemma_pow2_unfold(k + 1);
            let p = pow2((e - 2) as nat) as int;
            assert((2 * m) * p == m * (2 * p)) by (nonlinear_arith);
            k = k + 1;
        }
        m = 2 * m;
        e = e - 1;
    }
    let bits: u64 = e * HIDDEN_BIT + (m - HIDDEN_BIT);
    proof {
        let h = HIDDEN_BIT as int;
        lemma_fundamental_div_mod_converse(bits as int, h, e as int, (m - h) as int);
    }
    Scalar { bits }
}

/// `x` is the whole number `n`, held exactly.
pub open spec fn is_integer(x: Scalar, n: int) -> bool {
    !x.negative() && x.finite() && x.scaled() == n * pow2(1074)
}

/// A whole number in the range of `u32` survives the way into a value and
/// back.
pub proof fn lemma_integer_round_trip(x: Scalar, n: int)
    requires
        is_integer(x, n),
        0 <= n <= u32::MAX,
    ensures
        x.truncated() == n,
{
    lemma2_to64();
    lemma_pow2_pos(1074);
    let unit = pow2(1074) as int;
    assert(n * unit < pow2(32) * unit) by (nonlinear_arith)
        requires
            n < pow2(32),
            unit > 0,
    ;
    vstd::arithmetic::div_mod::lemma_div_multiples_vanish(n, unit);
    assert(n * unit == unit * n) by (nonlinear_arith);
}

/// What the high 53 bits of a draw are worth in units of 2^-1074, read as a
/// fraction of 2^53: `(draw >> 11) * 2^1021`.
pub open spec fn fraction_units(draw: u64) -> int {
    (draw / DISCARDED) * pow2(1021)
}

/// `r` is the number in `[0, 1)` that the high 53 bits of a draw stand for.
pub open spec fn is_unit_fraction(draw: u64, r: Scalar) -> bool {
    !r.negative() && r.finite() && r.scaled() == fraction_units(draw)
}

/// The number that a draw stands for lies from zero up to, not including,
/// one.
pub proof fn lemma_unit_fraction_range(draw: u64, r: Scalar)
    requires
        is_unit_fraction(draw, r),
    ensures
        (Scalar { bits: 0 }).at_most(r),
        r.below(Scalar { bits: ONE_BITS }),
{
    lemma_one();
    if 0 < r.magnitude() {
        lemma_weight_increases(0, r.magnitude());
    }
    lemma2_to64_rest();
    lemma_pow2_adds(53, 1021);
    lemma_pow2_pos(1021);
    let k = draw as int / (DISCARDED as int);
    let unit = pow2(1021) as int;
    assert(k * unit < 0x20_0000_0000_0000 * unit) by (nonlinear_arith)
        requires
            k < 0x20_0000_0000_0000,
            unit > 0,
    ;
}

/// A draw stands for one number.
pub proof fn lemma_unit_fraction_is_determined(draw: u64, a: Scalar, b: Scalar)
    requires
        is_unit_fraction(draw, a),
        is_unit_fraction(draw, b),
    ensures
        a == b,
{
    if a.magnitude() < b.magnitude() {
        lemma_weight_increases(a.magnitude(), b.magnitude());
    } else if b.magnitude() < a.magnitude() {
        lemma_weight_increases(b.magnitude(), a.magnitude());
    }
}

impl Scalar {
    /// The whole number a value is cut down to when its fractional part is
    /// dropped and the result held to the range of `u32`: zero for a NaN and
    /// for anything with the sign bit set, `u32::MAX` from 2^32 upwards.
    pub open spec fn truncated(self) -> int {
        if self.nan() || self.negative() {
            0
        } else if self.scaled() >= pow2(32) * pow2(1074) {
            u32::MAX as int
        } else {
            self.scaled() / (pow2(1074) as int)
        }
    }

    /// The value of an unsigned integer; every `u32` is represented exactly.
    pub fn from_u32(n: u32) -> (r: Scalar)
        ensures
            is_integer(r, n as int),
    {
        if n == 0 {
            Scalar { bits: 0 }
        } else {
            compose(n as u64, UNIT_EXPONENT)
        }
    }

    /// The value in `[0, 1)` that the high 53 bits of a 64-bit draw stand
    /// for: `(draw >> 11) / 2^53`.
    pub fn unit_fraction(draw: u64) -> (r: Scalar)
        ensures
            is_unit_fraction(draw, r),
    {
        let k: u64 = draw / DISCARDED;
        if k == 0 {
            Scalar { bits: 0 }
        } else {
            compose(k, FRACTION_EXPONENT)
        }
    }

    /// The integer part, held to the range of `u32`.
    pub fn to_u32(self) -> (r: u32)
        ensures
            r == self.truncated(),
    {
        if self.bits > INFINITY_BITS {
            // A NaN without the sign bit, or any value with it.
            return 0;
        }
        let h = HIDDEN_BIT;
        let e: u64 = self.bits / h;
        let f: u64 = self.bits % h;
        proof {
            lemma2_to64();
            lemma2_to64_rest();
        }
        if e < 1023 {
            proof {
                // Below one: the weight is under 2^1074.
                if self.bits >= h {
                    lemma_pow2_unfold(53);
                    lemma_pow2_adds(53, 1021);
                    let p = pow2((e - 1) as nat) as int;
                    let q = pow2(1021) as int;
                    if e - 1 < 1021 {
                        lemma_pow2_strictly_increases((e - 1) as nat, 1021);
                    }
                    lemma_pow2_pos((e - 1) as nat);
                    assert((h + f) * p < (2 * h) * q) by (nonlinear_arith)
                        requires
                            0 <= f < h,
                            0 < p <= q,
                    ;
                } else {
                    lemma_pow2_adds(52, 1022);
                    lemma_pow2_pos(1022);
                    let q = pow2(1022) as int;
                    assert(h * q >= h) by (nonlinear_arith)
                        requires
                            q >= 1,
                            h > 0,
                    ;
                }
                lemma_pow2_pos(1074);
                vstd::arithmetic::div_mod::lemma_basic_div(self.scaled(), pow2(1074) as int);
            }
            return 0;
        }
        if e >= 1055 {
            proof {
                // From 2^32 upwards.
                lemma_pow2_adds(52, 1054);
                lemma_pow2_adds(32, 1074);
                let p = pow2((e - 1) as nat) as int;
                let q = pow2(1054) as int;
                if 1054 < e - 1 {
                    lemma_pow2_strictly_increases(1054, (e - 1) as nat);
                }
                lemma_pow2_pos(1054);
                assert((h + f) * p >= h * q) by (nonlinear_arith)
                    requires
                        0 <= f,
                        h > 0,
                        0 < q <= p,
                ;
            }
            return u32::MAX;
        }
        let shift: u64 = 1075 - e;
        let m: u64 = h + f;
        let q: u64 = m >> shift;
        proof {
            lemma_u64_shr_is_div(m, shift);
            let lo = pow2(shift as nat) as int;
            let hi = pow2((e - 1) as nat) as int;
            lemma_pow2_pos(shift as nat);
            lemma_pow2_pos((e - 1) as nat);
            lemma_pow2_adds(shift as nat, (e - 1) as nat);
            assert(pow2(1074) == lo * hi);
            // (m * hi) / (lo * hi) == m / lo
            lemma_div_multiples_vanish_quotient(hi, m as int, lo);
            assert(m * hi == hi * m) by (nonlinear_arith);
            assert(lo * hi == hi * lo) by (nonlinear_arith);
            assert(self.scaled() == m * hi);
            assert(self.scaled() / (pow2(1074) as int) == m as int / lo);
            // The quotient fits: m < 2^53 and the shift is at least 21.
            if 21 < shift {
                lemma_pow2_strictly_increases(21, shift as nat);
            }
            assert(m as int / lo <= m as int / (pow2(21) as int)) by {
                vstd::arithmetic::div_mod::lemma_div_is_ordered_by_denominator(
                    m as int,
                    pow2(21) as int,
                    lo,
                );
            }
            assert(pow2(21) == 0x200000);
            assert(m as int / 0x200000 < 0x1_0000_0000);
            // Below 2^32, so the first two cases of `truncated` do not apply.
            lemma_pow2_adds(32, 1074);
            lemma_pow2_adds(53, 1053);
            lemma_pow2_adds(52, 1054);
            lemma_pow2_unfold(53);
            if e - 1 < 1053 {
                lemma_pow2_strictly_increases((e - 1) as nat, 1053);
            }
            let top = pow2(1053) as int;
            assert(m * hi < (2 * h) * top) by (nonlinear_arith)
                requires
                    0 < m < 2 * h,
                    0 < hi <= top,
            ;
            assert(pow2(53) * pow2(1053) == pow2(52) * pow2(1054));
        }
        q as u32
    }
}

} // verus!
