//! Signed fixed-point scalars with thirty-two fractional bits.
//!
//! A scalar is stored as a raw `i64`; the number it stands for is `raw / 4294967296`.
//! Every operation is total: a result that does not fit is clamped to the
//! nearest representable value, and a division by zero yields zero.

use vstd::prelude::*;

verus! {

/// Raw representation of the number one.
pub const ONE_RAW: i64 = 4294967296;

/// Clamps a mathematical integer into the range of raw values.
pub open spec fn sat(x: int) -> int {
    if x < -0x8000_0000_0000_0000 {
        -0x8000_0000_0000_0000
    } else if x > 0x7fff_ffff_ffff_ffff {
        0x7fff_ffff_ffff_ffff
    } else {
        x
    }
}

/// Raw sum, clamped.
pub open spec fn fx_add(a: int, b: int) -> int {
    sat(a + b)
}

/// Raw difference, clamped.
pub open spec fn fx_sub(a: int, b: int) -> int {
    sat(a - b)
}

/// Raw negation, clamped.
pub open spec fn fx_neg(a: int) -> int {
    sat(-a)
}

/// Raw absolute value, clamped.
pub open spec fn fx_abs(a: int) -> int {
    if a < 0 {
        sat(-a)
    } else {
        a
    }
}

/// Raw product of two scalars: the exact product rounded down to a multiple of
/// `1 / 4294967296`, then clamped.
pub open spec fn fx_mul(a: int, b: int) -> int {
    sat((a * b) / 4294967296)
}

/// Quotient of two mathematical integers rounded towards negative infinity;
/// zero when the divisor is zero.
pub open spec fn floor_div(n: int, d: int) -> int {
    if d > 0 {
        n / d
    } else if d < 0 {
        (-n) / (-d)
    } else {
        0
    }
}

/// Raw quotient of two scalars, rounded down and clamped; zero when `b` is zero.
pub open spec fn fx_div(a: int, b: int) -> int {
    sat(floor_div(a * 4294967296, b))
}

/// Raw value of the ratio `num / den` of two integers, rounded down and clamped.
pub open spec fn fx_ratio(num: int, den: int) -> int {
    sat(floor_div(num * 4294967296, den))
}

/// The largest whole number not above the scalar, as a mathematical integer.
pub open spec fn fx_floor_int(a: int) -> int {
    a / 4294967296
}

/// Raw value of the largest whole number not above the scalar.
pub open spec fn fx_floor(a: int) -> int {
    (a / 4294967296) * 4294967296
}

/// Raw value of the fractional part, in `[0, 4294967296)`.
pub open spec fn fx_fract(a: int) -> int {
    a % 4294967296
}

/// The smaller of two raw values.
pub open spec fn fx_min(a: int, b: int) -> int {
    if a <= b {
        a
    } else {
        b
    }
}

/// The larger of two raw values.
pub open spec fn fx_max(a: int, b: int) -> int {
    if a >= b {
        a
    } else {
        b
    }
}

/// `x` limited to `[lo, hi]`; `lo` wins when the bounds cross.
pub open spec fn fx_clamp(x: int, lo: int, hi: int) -> int {
    if x < lo {
        lo
    } else if x > hi {
        hi
    } else {
        x
    }
}

/// `x` limited to the unit interval `[0, 4294967296]`.
pub open spec fn fx_unit(x: int) -> int {
    fx_clamp(x, 0, 4294967296)
}

/// Linear blend `a + (b - a) * t` with one rounding per operation.
pub open spec fn fx_lerp(a: int, b: int, t: int) -> int {
    fx_add(a, fx_mul(fx_sub(b, a), t))
}

/// A fixed-point scalar.
#[derive(Clone, Copy, Debug, PartialEq, Eq, Structural)]
pub struct Fx {
    pub raw: i64,
}

impl View for Fx {
    type V = int;

    open spec fn view(&self) -> int {
        self.raw as int
    }
}

/// The product of two raw values fits in 128 bits.
pub proof fn lemma_product_bound(a: int, b: int)
    requires
        -0x8000_0000_0000_0000 <= a <= 0x7fff_ffff_ffff_ffff,
        -0x8000_0000_0000_0000 <= b <= 0x7fff_ffff_ffff_ffff,
    ensures
        -0x4000_0000_0000_0000_0000_0000_0000_0000 <= a * b
            <= 0x4000_0000_0000_0000_0000_0000_0000_0000,
{
    assert(-0x4000_0000_0000_0000_0000_0000_0000_0000 <= a * b
        <= 0x4000_0000_0000_0000_0000_0000_0000_0000) by (nonlinear_arith)
        requires
            -0x8000_0000_0000_0000 <= a <= 0x7fff_ffff_ffff_ffff,
            -0x8000_0000_0000_0000 <= b <= 0x7fff_ffff_ffff_ffff,
    ;
}

/// Multiplying or dividing by one changes nothing.
pub proof fn lemma_one_is_neutral(a: int)
    requires
        -0x8000_0000_0000_0000 <= a <= 0x7fff_ffff_ffff_ffff,
    ensures
        fx_mul(a, 4294967296) == a,
        fx_mul(4294967296, a) == a,
        fx_div(a, 4294967296) == a,
{
}

/// A product with a factor that is not negative grows with the other factor,
/// and is not negative where that factor is not.
pub proof fn lemma_mul_monotonic(a: int, b: int, s: int)
    requires
        a >= b,
        s >= 0,
    ensures
        fx_mul(a, s) >= fx_mul(b, s),
        fx_mul(s, a) >= fx_mul(s, b),
        b >= 0 ==> fx_mul(b, s) >= 0 && fx_mul(s, b) >= 0,
{
    assert(a * s >= b * s && s * a == a * s && s * b == b * s) by (nonlinear_arith)
        requires
            a >= b,
            s >= 0,
    ;
    if b >= 0 {
        assert(b * s >= 0) by (nonlinear_arith)
            requires
                b >= 0,
                s >= 0,
        ;
    }
}

/// A blend with a weight of the unit interval lies between its ends, and
/// grows with either end.
pub proof fn lemma_lerp_monotonic(a1: int, b1: int, a2: int, b2: int, s: int)
    requires
        -0x1000_0000_0000_0000 <= a2 <= a1 <= 0x1000_0000_0000_0000,
        -0x1000_0000_0000_0000 <= b2 <= b1 <= 0x1000_0000_0000_0000,
        0 <= s <= 4294967296,
    ensures
        fx_lerp(a1, b1, s) >= fx_lerp(a2, b2, s),
        fx_min(a1, b1) <= fx_lerp(a1, b1, s) <= fx_max(a1, b1),
{
    let d11 = b1 - a1;
    let d21 = b2 - a1;
    let d22 = b2 - a2;
    let delta = a1 - a2;
    // growing with the second end
    assert(d11 * s >= d21 * s) by (nonlinear_arith)
        requires
            d11 >= d21,
            s >= 0,
    ;
    // growing with the first end
    assert((d21 * s) + delta * 4294967296 >= d22 * s) by (nonlinear_arith)
        requires
            d22 == d21 + delta,
            delta >= 0,
            0 <= s <= 4294967296,
    ;
    lemma_product_within(d11, s);
    lemma_product_within(d21, s);
    lemma_product_within(d22, s);
}

/// A blend with a weight of the unit interval keeps the distance between
/// two pairs of ends: where both ends of one blend lie at least `gap` above
/// the ends of the other, so does the blend.
pub proof fn lemma_lerp_gap(a1: int, b1: int, a2: int, b2: int, s: int, gap: int)
    requires
        -0x1000_0000_0000_0000 <= a2 <= a1 <= 0x1000_0000_0000_0000,
        -0x1000_0000_0000_0000 <= b2 <= b1 <= 0x1000_0000_0000_0000,
        0 <= s <= 4294967296,
        a1 - a2 >= gap,
        b1 - b2 >= gap,
    ensures
        fx_lerp(a1, b1, s) - fx_lerp(a2, b2, s) >= gap,
{
    let one = 4294967296int;
    let d1 = b1 - a1;
    let d2 = b2 - a2;
    let q1 = (d1 * s) / one;
    let q2 = (d2 * s) / one;
    lemma_product_within(d1, s);
    lemma_product_within(d2, s);
    assert(fx_lerp(a1, b1, s) == a1 + q1);
    assert(fx_lerp(a2, b2, s) == a2 + q2);
    let da = a1 - a2;
    let db = b1 - b2;
    assert(d1 * s - d2 * s == db * s - da * s) by (nonlinear_arith)
        requires
            d1 == b1 - a1,
            d2 == b2 - a2,
            da == a1 - a2,
            db == b1 - b2,
    ;
    assert(da * (one - s) >= gap * (one - s) && db * s >= gap * s) by (nonlinear_arith)
        requires
            da >= gap,
            db >= gap,
            0 <= s <= one,
    ;
    assert(da * (one - s) == da * one - da * s && gap * (one - s) + gap * s == gap * one)
        by (nonlinear_arith);
    // one * (q1 - q2) >= (d1 - d2) * s - (one - 1), and the rest is linear
    assert(one * q1 >= d1 * s - (one - 1));
    assert(one * q2 <= d2 * s);
}

/// A product of a scalar with a weight of the unit interval lies between
/// zero and the scalar.
pub proof fn lemma_product_within(d: int, s: int)
    requires
        0 <= s <= 4294967296,
    ensures
        d >= 0 ==> 0 <= (d * s) / 4294967296 <= d,
        d <= 0 ==> d <= (d * s) / 4294967296 <= 0,
{
    if d >= 0 {
        assert(0 <= d * s <= d * 4294967296) by (nonlinear_arith)
            requires
                d >= 0,
                0 <= s <= 4294967296,
        ;
    } else {
        assert(d * 4294967296 <= d * s <= 0) by (nonlinear_arith)
            requires
                d <= 0,
                0 <= s <= 4294967296,
        ;
    }
}

/// Rounding a negative quotient away from zero gives the quotient rounded down.
pub proof fn lemma_floor_div_negative(m: int, d: int)
    requires
        m > 0,
        d > 0,
    ensures
        -((m - 1) / d + 1) == (-m) / d,
{
    let q = (m - 1) / d;
    let r = (m - 1) % d;
    vstd::arithmetic::div_mod::lemma_fundamental_div_mod(m - 1, d);
    vstd::arithmetic::div_mod::lemma_mod_bound(m - 1, d);
    assert(d * (-(q + 1)) == -(d * q) - d) by (nonlinear_arith);
    assert(-m == d * (-(q + 1)) + (d - 1 - r));
    vstd::arithmetic::div_mod::lemma_fundamental_div_mod_converse(-m, d, -(q + 1), d - 1 - r);
}

/// Clamps a 128-bit integer to a raw value.
pub fn saturate_i128(x: i128) -> (r: i64)
    ensures
        r as int == sat(x as int),
{
    if x < -0x8000_0000_0000_0000i128 {
        i64::MIN
    } else if x > 0x7fff_ffff_ffff_ffffi128 {
        i64::MAX
    } else {
        x as i64
    }
}

/// Divides `n` by `d`, rounding towards negative infinity; zero when `d` is zero.
pub fn floor_div_i128(n: i128, d: i128) -> (q: i128)
    requires
        -0x4000_0000_0000_0000_0000_0000_0000_0000 <= n <= 0x4000_0000_0000_0000_0000_0000_0000_0000,
        -0x4000_0000_0000_0000_0000_0000_0000_0000 <= d <= 0x4000_0000_0000_0000_0000_0000_0000_0000,
    ensures
        q as int == floor_div(n as int, d as int),
{
    if d == 0 {
        return 0;
    }
    let neg_d: bool = d < 0;
    let num: i128 = if neg_d { -n } else { n };
    let den: i128 = if neg_d { -d } else { d };
    if num >= 0 {
        proof {
            vstd::arithmetic::div_mod::lemma_div_pos_is_pos(num as int, den as int);
            vstd::arithmetic::div_mod::lemma_div_is_ordered_by_denominator(num as int, 1, den as int);
            vstd::arithmetic::div_mod::lemma_div_basics(num as int);
        }
        num / den
    } else {
        let m: i128 = -num;
        proof {
            lemma_floor_div_negative(m as int, den as int);
            vstd::arithmetic::div_mod::lemma_div_pos_is_pos(m - 1, den as int);
            vstd::arithmetic::div_mod::lemma_div_is_ordered_by_denominator(m - 1, 1, den as int);
            vstd::arithmetic::div_mod::lemma_div_basics(m - 1);
        }
        -((m - 1) / den + 1)
    }
}

impl Fx {
    /// The scalar with the given raw representation.
    pub fn new(raw: i64) -> (r: Fx)
        ensures
            r@ == raw,
    {
        Fx { raw }
    }

    /// The number zero.
    pub fn zero() -> (r: Fx)
        ensures
            r@ == 0,
    {
        Fx { raw: 0 }
    }

    /// The number one.
    pub fn one() -> (r: Fx)
        ensures
            r@ == 4294967296,
    {
        Fx { raw: ONE_RAW }
    }

    /// The whole number `n`.
    pub fn from_int(n: i32) -> (r: Fx)
        ensures
            r@ == n * 4294967296,
    {
        Fx { raw: (n as i64) * 4294967296 }
    }

    /// The ratio `num / den`, rounded down to a multiple of `1 / 4294967296`;
    /// zero when `den` is zero.
    pub fn ratio(num: i64, den: i64) -> (r: Fx)
        ensures
            r@ == fx_ratio(num as int, den as int),
    {
        let n: i128 = (num as i128) * 4294967296;
        Fx { raw: saturate_i128(floor_div_i128(n, den as i128)) }
    }

    /// `self + other`, clamped.
    pub fn add(self, other: Fx) -> (r: Fx)
        ensures
            r@ == fx_add(self@, other@),
    {
        Fx { raw: saturate_i128(self.raw as i128 + other.raw as i128) }
    }

    /// `self - other`, clamped.
    pub fn sub(self, other: Fx) -> (r: Fx)
        ensures
            r@ == fx_sub(self@, other@),
    {
        Fx { raw: saturate_i128(self.raw as i128 - other.raw as i128) }
    }

    /// `-self`, clamped.
    pub fn neg(self) -> (r: Fx)
        ensures
            r@ == fx_neg(self@),
    {
        Fx { raw: saturate_i128(-(self.raw as i128)) }
    }

    /// `|self|`, clamped.
    pub fn abs(self) -> (r: Fx)
        ensures
            r@ == fx_abs(self@),
            r@ >= 0,
    {
        if self.raw < 0 {
            Fx { raw: saturate_i128(-(self.raw as i128)) }
        } else {
            self
        }
    }

    /// `self * other`, rounded down and clamped.
    pub fn mul(self, other: Fx) -> (r: Fx)
        ensures
            r@ == fx_mul(self@, other@),
    {
        proof {
            lemma_product_bound(self@, other@);
        }
        let p: i128 = (self.raw as i128) * (other.raw as i128);
        Fx { raw: saturate_i128(floor_div_i128(p, 4294967296)) }
    }

    /// `self / other`, rounded down and clamped; zero when `other` is zero.
    pub fn div(self, other: Fx) -> (r: Fx)
        ensures
            r@ == fx_div(self@, other@),
    {
        let n: i128 = (self.raw as i128) * 4294967296;
        Fx { raw: saturate_i128(floor_div_i128(n, other.raw as i128)) }
    }

    /// Half of `self`, rounded down.
    pub fn half(self) -> (r: Fx)
        ensures
            r@ == self@ / 2,
    {
        if self.raw >= 0 {
            Fx { raw: self.raw / 2 }
        } else {
            Fx { raw: -((1 - self.raw as i128) / 2) as i64 }
        }
    }

    /// The largest whole number not above `self`, as an integer.
    pub fn floor_int(self) -> (r: i64)
        ensures
            r == fx_floor_int(self@),
            -0x8000_0000 <= r < 0x8000_0000,
    {
        floor_div_i128(self.raw as i128, 4294967296) as i64
    }

    /// The largest whole number not above `self`.
    pub fn floor(self) -> (r: Fx)
        ensures
            r@ == fx_floor(self@),
            r@ <= self@ < r@ + 4294967296,
    {
        Fx { raw: self.floor_int() * 4294967296 }
    }

    /// The fractional part `self - floor(self)`.
    pub fn fract(self) -> (r: Fx)
        ensures
            r@ == fx_fract(self@),
            0 <= r@ < 4294967296,
            r@ == self@ - fx_floor(self@),
    {
        Fx { raw: self.raw - self.floor_int() * 4294967296 }
    }

    /// The smaller of `self` and `other`.
    pub fn min(self, other: Fx) -> (r: Fx)
        ensures
            r@ == fx_min(self@, other@),
    {
        if self.raw <= other.raw {
            self
        } else {
            other
        }
    }

    /// The larger of `self` and `other`.
    pub fn max(self, other: Fx) -> (r: Fx)
        ensures
            r@ == fx_max(self@, other@),
    {
        if self.raw >= other.raw {
            self
        } else {
            other
        }
    }

    /// `self` limited to `[lo, hi]`; `lo` wins when the bounds cross.
    pub fn clamp(self, lo: Fx, hi: Fx) -> (r: Fx)
        ensures
            r@ == fx_clamp(self@, lo@, hi@),
    {
        if self.raw < lo.raw {
            lo
        } else if self.raw > hi.raw {
            hi
        } else {
            self
        }
    }

    /// `self` limited to the unit interval.
    pub fn unit(self) -> (r: Fx)
        ensures
            r@ == fx_unit(self@),
            0 <= r@ <= 4294967296,
    {
        if self.raw < 0 {
            Fx { raw: 0 }
        } else if self.raw > 4294967296 {
            Fx { raw: 4294967296 }
        } else {
            self
        }
    }

    /// The blend `self + (other - self) * t`.
    pub fn lerp(self, other: Fx, t: Fx) -> (r: Fx)
        ensures
            r@ == fx_lerp(self@, other@, t@),
    {
        self.add(other.sub(self).mul(t))
    }

    /// Whether `self < other`.
    pub fn lt(self, other: Fx) -> (r: bool)
        ensures
            r == (self@ < other@),
    {
        self.raw < other.raw
    }

    /// Whether `self <= other`.
    pub fn le(self, other: Fx) -> (r: bool)
        ensures
            r == (self@ <= other@),
    {
        self.raw <= other.raw
    }
}

} // verus!
