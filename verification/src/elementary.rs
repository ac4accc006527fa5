//! Square roots, trigonometric functions and powers of fixed-point scalars.

use vstd::prelude::*;
use crate::fixed::{floor_div_i128, fx_add, fx_div, fx_fract, fx_floor_int, fx_max, fx_mul, fx_neg, Fx};

verus! {

/// `r` is the integer square root of `n`: the largest `r >= 0` with `r * r <= n`.
pub open spec fn is_isqrt(n: int, r: int) -> bool {
    0 <= r && r * r <= n && n < (r + 1) * (r + 1)
}

/// The integer square root of `n`; zero for a negative `n`.
pub open spec fn isqrt(n: int) -> int {
    if n <= 0 {
        0
    } else {
        choose|r: int| is_isqrt(n, r)
    }
}

/// Raw square root of a scalar, rounded down; zero for a negative scalar.
pub open spec fn fx_sqrt(a: int) -> int {
    isqrt(a * 4294967296)
}

/// Squaring is monotonic on the non-negative integers.
pub proof fn lemma_square_monotonic(a: int, b: int)
    requires
        0 <= a <= b,
    ensures
        a * a <= b * b,
{
    assert(a * a <= b * b) by (nonlinear_arith)
        requires
            0 <= a <= b,
    ;
}

/// A number has at most one integer square root.
pub proof fn lemma_isqrt_unique(n: int, r1: int, r2: int)
    requires
        is_isqrt(n, r1),
        is_isqrt(n, r2),
    ensures
        r1 == r2,
{
    if r1 < r2 {
        lemma_square_monotonic(r1 + 1, r2);
    } else if r2 < r1 {
        lemma_square_monotonic(r2 + 1, r1);
    }
}

/// Any witness of the defining property is the integer square root.
pub proof fn lemma_isqrt_is(n: int, r: int)
    requires
        is_isqrt(n, r),
    ensures
        isqrt(n) == r,
{
    if n <= 0 {
        assert(r >= 1 ==> r * r >= 1) by (nonlinear_arith);
    } else {
        let c = choose|c: int| is_isqrt(n, c);
        lemma_isqrt_unique(n, r, c);
    }
}

/// The integer square root of `n`, found by bisection.
pub fn isqrt_u128(n: u128) -> (r: u128)
    ensures
        is_isqrt(n as int, r as int),
        r as int == isqrt(n as int),
        r < 0x1_0000_0000_0000_0000,
        n < 0x1_0000_0000_0000_0000_0000_0000 ==> r < 0x1_0000_0000_0000,
{
    let mut lo: u128 = 0;
    let mut hi: u128 = 0x1_0000_0000_0000_0000;
    assert(0x1_0000_0000_0000_0000int * 0x1_0000_0000_0000_0000int
        == 0x1_0000_0000_0000_0000_0000_0000_0000_0000int) by (nonlinear_arith);
    while hi - lo > 1
        invariant
            lo < hi <= 0x1_0000_0000_0000_0000,
            lo * lo <= n,
            n < hi * hi,
        decreases hi - lo,
    {
        let mid: u128 = lo + (hi - lo) / 2;
        proof {
            lemma_square_monotonic(mid as int, 0xffff_ffff_ffff_ffff);
            assert(0xffff_ffff_ffff_ffffint * 0xffff_ffff_ffff_ffffint
                < 0x1_0000_0000_0000_0000_0000_0000_0000_0000int) by (nonlinear_arith);
        }
        if mid * mid <= n {
            lo = mid;
        } else {
            hi = mid;
        }
    }
    proof {
        lemma_isqrt_is(n as int, lo as int);
        if n < 0x1_0000_0000_0000_0000_0000_0000 && lo >= 0x1_0000_0000_0000 {
            lemma_square_monotonic(0x1_0000_0000_0000, lo as int);
            assert(0x1_0000_0000_0000int * 0x1_0000_0000_0000int
                == 0x1_0000_0000_0000_0000_0000_0000int) by (nonlinear_arith);
        }
    }
    lo
}

impl Fx {
    /// The square root of `self`, rounded down; zero when `self` is negative.
    pub fn sqrt(self) -> (r: Fx)
        ensures
            r@ == fx_sqrt(self@),
            0 <= r@ < 0x1_0000_0000_0000,
            self@ >= 0 ==> is_isqrt(self@ * 4294967296, r@),
    {
        if self.raw <= 0 {
            Fx { raw: 0 }
        } else {
            let n: u128 = (self.raw as u128) * 4294967296;
            let r = isqrt_u128(n);
            Fx { raw: r as i64 }
        }
    }
}

/// Raw value of pi.
pub const PI_RAW: i64 = 13493037704;

/// Raw value of a full turn, twice `PI_RAW`.
pub const TWO_PI_RAW: i64 = 26986075408;

/// Raw value of a quarter turn, half of `PI_RAW`.
pub const HALF_PI_RAW: i64 = 6746518852;

/// Raw value of an eighth of a turn, a quarter of `PI_RAW`.
pub const EIGHTH_TURN_RAW: i64 = 3373259426;

/// The Taylor polynomial of the sine up to the eleventh power, in Horner
/// form, for a raw angle of at most an eighth of a turn, where it is within
/// `1e-8` of the sine.
pub open spec fn sin_small(a: int) -> int {
    let a2 = (a * a) / 4294967296;
    let t1 = 4294967296 - a2 / 110;
    let t2 = 4294967296 - ((a2 * t1) / 4294967296) / 72;
    let t3 = 4294967296 - ((a2 * t2) / 4294967296) / 42;
    let t4 = 4294967296 - ((a2 * t3) / 4294967296) / 20;
    let t5 = 4294967296 - ((a2 * t4) / 4294967296) / 6;
    (a * t5) / 4294967296
}

/// The Taylor polynomial of the cosine up to the twelfth power, in Horner
/// form, for a raw angle of at most an eighth of a turn, where it is within
/// `1e-8` of the cosine.
pub open spec fn cos_small(a: int) -> int {
    let a2 = (a * a) / 4294967296;
    let t1 = 4294967296 - a2 / 132;
    let t2 = 4294967296 - ((a2 * t1) / 4294967296) / 90;
    let t3 = 4294967296 - ((a2 * t2) / 4294967296) / 56;
    let t4 = 4294967296 - ((a2 * t3) / 4294967296) / 30;
    let t5 = 4294967296 - ((a2 * t4) / 4294967296) / 12;
    4294967296 - ((a2 * t5) / 4294967296) / 2
}

/// The sine of an angle of the first quadrant: the sine polynomial up to an
/// eighth of a turn, and beyond it the cosine polynomial of what is left to
/// the quarter turn.
pub open spec fn sin_quadrant(a: int) -> int {
    if a <= 3373259426 {
        sin_small(a)
    } else {
        cos_small(6746518852 - a)
    }
}

/// Raw sine of a raw angle in radians: the angle is reduced to one turn, folded
/// into the first quadrant, and the polynomial applied with the sign of the
/// half turn it fell in.
pub open spec fn fx_sin(x: int) -> int {
    let r = x % 26986075408;
    let h = if r <= 13493037704 { r } else { r - 13493037704 };
    let a = if h > 6746518852 { 13493037704 - h } else { h };
    if r <= 13493037704 {
        sin_quadrant(a)
    } else {
        -sin_quadrant(a)
    }
}

/// Raw cosine: the sine a quarter turn ahead.
pub open spec fn fx_cos(x: int) -> int {
    fx_sin(fx_add(x, 6746518852))
}

/// A product of a bounded non-negative number with a unit-interval factor,
/// scaled back, keeps the bound.
pub proof fn lemma_scaled_product(x: int, t: int, bound: int)
    requires
        0 <= x <= bound,
        0 <= t <= 4294967296,
    ensures
        0 <= x * t <= bound * 4294967296,
        0 <= (x * t) / 4294967296 <= bound,
{
    assert(0 <= x * t <= bound * 4294967296) by (nonlinear_arith)
        requires
            0 <= x <= bound,
            0 <= t <= 4294967296,
    ;
}

/// The square of an angle of at most an eighth of a turn is less than one.
pub proof fn lemma_small_square(a: int)
    requires
        0 <= a <= 3373259426,
    ensures
        0 <= a * a <= 3373259426 * 3373259426,
        0 <= (a * a) / 4294967296 <= 2649364895,
{
    assert(0 <= a * a <= 3373259426 * 3373259426) by (nonlinear_arith)
        requires
            0 <= a <= 3373259426,
    ;
}

/// Up to an eighth of a turn both polynomials lie in the unit interval.
pub proof fn lemma_small_bounds(a: int)
    requires
        0 <= a <= 3373259426,
    ensures
        0 <= sin_small(a) <= 4294967296,
        0 <= cos_small(a) <= 4294967296,
{
    lemma_small_square(a);
    let a2 = (a * a) / 4294967296;
    let s1 = 4294967296 - a2 / 110;
    lemma_scaled_product(a2, s1, 2649364895);
    let s2 = 4294967296 - ((a2 * s1) / 4294967296) / 72;
    lemma_scaled_product(a2, s2, 2649364895);
    let s3 = 4294967296 - ((a2 * s2) / 4294967296) / 42;
    lemma_scaled_product(a2, s3, 2649364895);
    let s4 = 4294967296 - ((a2 * s3) / 4294967296) / 20;
    lemma_scaled_product(a2, s4, 2649364895);
    let s5 = 4294967296 - ((a2 * s4) / 4294967296) / 6;
    lemma_scaled_product(a, s5, 3373259426);
    let c1 = 4294967296 - a2 / 132;
    lemma_scaled_product(a2, c1, 2649364895);
    let c2 = 4294967296 - ((a2 * c1) / 4294967296) / 90;
    lemma_scaled_product(a2, c2, 2649364895);
    let c3 = 4294967296 - ((a2 * c2) / 4294967296) / 56;
    lemma_scaled_product(a2, c3, 2649364895);
    let c4 = 4294967296 - ((a2 * c3) / 4294967296) / 30;
    lemma_scaled_product(a2, c4, 2649364895);
    let c5 = 4294967296 - ((a2 * c4) / 4294967296) / 12;
    lemma_scaled_product(a2, c5, 2649364895);
}

/// The sine lies between minus one and one.
pub proof fn lemma_sin_range(x: int)
    ensures
        -4294967296 <= fx_sin(x) <= 4294967296,
{
    let r = x % 26986075408;
    let h = if r <= 13493037704 { r } else { r - 13493037704 };
    let a = if h > 6746518852 { 13493037704 - h } else { h };
    if a <= 3373259426 {
        lemma_small_bounds(a);
    } else {
        lemma_small_bounds(6746518852 - a);
    }
}

/// At the angle zero the sine is zero and the cosine is one.
pub proof fn lemma_trig_at_zero()
    ensures
        fx_sin(0) == 0,
        fx_cos(0) == 4294967296,
{
    let z = 0int;
    assert(z * z == 0) by (nonlinear_arith)
        requires
            z == 0,
    ;
    assert(sin_small(0) == 0);
    assert(cos_small(0) == 4294967296);
}

/// One step of a Horner scheme: `1 - (a2 * t) / k`, for `a2` below one and `t`
/// in the unit interval.
fn horner_step(a2: i64, t: i64, k: i64) -> (r: i64)
    requires
        0 <= a2 <= 2649364895,
        0 <= t <= 4294967296,
        2 <= k <= 132,
    ensures
        r == 4294967296 - ((a2 * t) / 4294967296) / (k as int),
        0 <= r <= 4294967296,
{
    proof {
        lemma_scaled_product(a2 as int, t as int, 2649364895);
    }
    let p: i128 = (a2 as i128) * (t as i128);
    4294967296 - ((p / 4294967296) as i64) / k
}

/// The square of a small angle, as a scalar.
fn small_square(a: i64) -> (r: i64)
    requires
        0 <= a <= 3373259426,
    ensures
        r == (a * a) / 4294967296,
        0 <= r <= 2649364895,
{
    proof {
        lemma_small_square(a as int);
    }
    (((a as i128) * (a as i128)) / 4294967296) as i64
}

/// Evaluates the sine polynomial.
fn sin_small_exec(a: i64) -> (r: i64)
    requires
        0 <= a <= 3373259426,
    ensures
        r == sin_small(a as int),
        0 <= r <= 4294967296,
{
    let a2 = small_square(a);
    let t1: i64 = 4294967296 - a2 / 110;
    let t2 = horner_step(a2, t1, 72);
    let t3 = horner_step(a2, t2, 42);
    let t4 = horner_step(a2, t3, 20);
    let t5 = horner_step(a2, t4, 6);
    proof {
        lemma_scaled_product(a as int, t5 as int, 3373259426);
    }
    (((a as i128) * (t5 as i128)) / 4294967296) as i64
}

/// Evaluates the cosine polynomial.
fn cos_small_exec(a: i64) -> (r: i64)
    requires
        0 <= a <= 3373259426,
    ensures
        r == cos_small(a as int),
        0 <= r <= 4294967296,
{
    let a2 = small_square(a);
    let t1: i64 = 4294967296 - a2 / 132;
    let t2 = horner_step(a2, t1, 90);
    let t3 = horner_step(a2, t2, 56);
    let t4 = horner_step(a2, t3, 30);
    let t5 = horner_step(a2, t4, 12);
    horner_step(a2, t5, 2)
}

/// Evaluates the sine on a first-quadrant angle.
fn sin_first_quadrant(a: i64) -> (r: i64)
    requires
        0 <= a <= 6746518852,
    ensures
        r == sin_quadrant(a as int),
        0 <= r <= 4294967296,
{
    if a <= EIGHTH_TURN_RAW {
        sin_small_exec(a)
    } else {
        cos_small_exec(HALF_PI_RAW - a)
    }
}

impl Fx {
    /// The sine of `self`, taken as an angle in radians.
    pub fn sin(self) -> (r: Fx)
        ensures
            r@ == fx_sin(self@),
            -4294967296 <= r@ <= 4294967296,
    {
        let q: i128 = floor_div_i128(self.raw as i128, 26986075408);
        let r: i64 = (self.raw as i128 - q * 26986075408) as i64;
        let h: i64 = if r <= PI_RAW { r } else { r - PI_RAW };
        let a: i64 = if h > HALF_PI_RAW { PI_RAW - h } else { h };
        let s: i64 = sin_first_quadrant(a);
        if r <= PI_RAW {
            Fx { raw: s }
        } else {
            Fx { raw: -s }
        }
    }

    /// The cosine of `self`, taken as an angle in radians.
    pub fn cos(self) -> (r: Fx)
        ensures
            r@ == fx_cos(self@),
            -4294967296 <= r@ <= 4294967296,
    {
        self.add(Fx { raw: HALF_PI_RAW }).sin()
    }
}

/// `b` raised to the whole power `n` by repeated squaring, every product rounded
/// as a scalar product.
pub open spec fn pow_whole(b: int, n: nat) -> int
    decreases n,
{
    if n == 0 {
        4294967296
    } else {
        let h = pow_whole(b, n / 2);
        let s = fx_mul(h, h);
        if n % 2 == 1 {
            fx_mul(s, b)
        } else {
            s
        }
    }
}

/// `b` raised to the power `f / (2 * half)`, for `0 <= f < 2 * half` and `half` a
/// power of two (or zero): one square root is taken per binary digit of the
/// exponent, and the roots whose digit is set are multiplied together.
pub open spec fn pow_frac(b: int, f: int, half: nat) -> int
    decreases half,
{
    if half == 0 {
        4294967296
    } else {
        let root = fx_sqrt(b);
        if f >= half {
            fx_mul(root, pow_frac(root, f - half, half / 2))
        } else {
            pow_frac(root, f, half / 2)
        }
    }
}

/// `b` raised to a non-negative raw exponent `e`; a negative base counts as zero.
pub open spec fn fx_pow_up(b: int, e: int) -> int {
    let base = fx_max(b, 0);
    fx_mul(pow_whole(base, fx_floor_int(e) as nat), pow_frac(base, fx_fract(e), 2147483648))
}

/// Raw power `b ^ e`; a negative exponent gives the reciprocal of the power
/// with the exponent negated.
pub open spec fn fx_pow(b: int, e: int) -> int {
    if e < 0 {
        fx_div(4294967296, fx_pow_up(b, fx_neg(e)))
    } else {
        fx_pow_up(b, e)
    }
}

/// The product of two scalars of the unit interval lies in the unit interval
/// and is no larger than either factor.
pub proof fn lemma_mul_unit(a: int, b: int)
    requires
        0 <= a <= 4294967296,
        0 <= b <= 4294967296,
    ensures
        0 <= fx_mul(a, b) <= 4294967296,
        fx_mul(a, b) <= a,
        fx_mul(a, b) <= b,
{
    assert(0 <= a * b <= a * 4294967296 && a * b <= b * 4294967296) by (nonlinear_arith)
        requires
            0 <= a <= 4294967296,
            0 <= b <= 4294967296,
    ;
}

/// The square root of a scalar of the unit interval lies in the unit interval.
pub proof fn lemma_sqrt_unit(a: int)
    requires
        0 <= a <= 4294967296,
    ensures
        0 <= fx_sqrt(a) <= 4294967296,
{
    let n = a * 4294967296;
    let r = fx_sqrt(a);
    if n > 0 {
        lemma_isqrt_exists(n);
        if r > 4294967296 {
            lemma_square_monotonic(4294967297, r);
        }
    }
}

/// Every non-negative number has an integer square root.
pub proof fn lemma_isqrt_exists(n: int)
    requires
        n >= 0,
    ensures
        is_isqrt(n, isqrt(n)),
    decreases n,
{
    if n == 0 {
    } else {
        lemma_isqrt_exists(n - 1);
        let r = isqrt(n - 1);
        assert((r + 2) * (r + 2) > (r + 1) * (r + 1)) by (nonlinear_arith)
            requires
                r >= 0,
        ;
        if (r + 1) * (r + 1) <= n {
            lemma_isqrt_is(n, r + 1);
        } else {
            lemma_isqrt_is(n, r);
        }
    }
}

/// No power of a scalar that is not negative is negative.
pub proof fn lemma_pow_whole_sign(b: int, n: nat)
    requires
        b >= 0,
    ensures
        pow_whole(b, n) >= 0,
    decreases n,
{
    if n > 0 {
        lemma_pow_whole_sign(b, n / 2);
        let h = pow_whole(b, n / 2);
        crate::fixed::lemma_mul_monotonic(h, 0, h);
        crate::fixed::lemma_mul_monotonic(fx_mul(h, h), 0, b);
    }
}

/// No fractional power of a scalar that is not negative is negative.
pub proof fn lemma_pow_frac_sign(b: int, f: int, half: nat)
    requires
        b >= 0,
    ensures
        pow_frac(b, f, half) >= 0,
    decreases half,
{
    if half > 0 {
        let root = fx_sqrt(b);
        assert(b * 4294967296 >= 0);
        lemma_isqrt_exists(b * 4294967296);
        lemma_pow_frac_sign(root, f - half, half / 2);
        lemma_pow_frac_sign(root, f, half / 2);
        crate::fixed::lemma_mul_monotonic(root, 0, pow_frac(root, f - half, half / 2));
    }
}

/// A power with an exponent that is not negative is not negative.
pub proof fn lemma_pow_sign(b: int, e: int)
    requires
        e >= 0,
    ensures
        fx_pow(b, e) >= 0,
{
    let base = fx_max(b, 0);
    lemma_pow_whole_sign(base, fx_floor_int(e) as nat);
    lemma_pow_frac_sign(base, fx_fract(e), 2147483648);
    crate::fixed::lemma_mul_monotonic(
        pow_whole(base, fx_floor_int(e) as nat),
        0,
        pow_frac(base, fx_fract(e), 2147483648),
    );
}

/// A whole power of a scalar of the unit interval lies in the unit interval.
pub proof fn lemma_pow_whole_unit(b: int, n: nat)
    requires
        0 <= b <= 4294967296,
    ensures
        0 <= pow_whole(b, n) <= 4294967296,
    decreases n,
{
    if n > 0 {
        lemma_pow_whole_unit(b, n / 2);
        let h = pow_whole(b, n / 2);
        lemma_mul_unit(h, h);
        lemma_mul_unit(fx_mul(h, h), b);
    }
}

/// A fractional power of a scalar of the unit interval lies in the unit interval.
pub proof fn lemma_pow_frac_unit(b: int, f: int, half: nat)
    requires
        0 <= b <= 4294967296,
    ensures
        0 <= pow_frac(b, f, half) <= 4294967296,
    decreases half,
{
    if half > 0 {
        lemma_sqrt_unit(b);
        let root = fx_sqrt(b);
        lemma_pow_frac_unit(root, f - half, half / 2);
        lemma_pow_frac_unit(root, f, half / 2);
        lemma_mul_unit(root, pow_frac(root, f - half, half / 2));
    }
}

/// A non-negative power of a scalar of the unit interval lies in the unit interval.
pub proof fn lemma_pow_unit(b: int, e: int)
    requires
        0 <= b <= 4294967296,
        0 <= e,
    ensures
        0 <= fx_pow(b, e) <= 4294967296,
{
    lemma_pow_whole_unit(b, fx_floor_int(e) as nat);
    lemma_pow_frac_unit(b, fx_fract(e), 2147483648);
    lemma_mul_unit(pow_whole(b, fx_floor_int(e) as nat), pow_frac(b, fx_fract(e), 2147483648));
}

/// Raises `b` to the whole power `n`.
fn pow_whole_exec(b: Fx, n: u64) -> (r: Fx)
    ensures
        r@ == pow_whole(b@, n as nat),
    decreases n,
{
    if n == 0 {
        Fx { raw: 4294967296 }
    } else {
        let h = pow_whole_exec(b, n / 2);
        let s = h.mul(h);
        if n % 2 == 1 {
            s.mul(b)
        } else {
            s
        }
    }
}

/// Raises `b` to the power `f / (2 * half)`.
fn pow_frac_exec(b: Fx, f: u64, half: u64) -> (r: Fx)
    ensures
        r@ == pow_frac(b@, f as int, half as nat),
    decreases half,
{
    if half == 0 {
        Fx { raw: 4294967296 }
    } else {
        let root = b.sqrt();
        if f >= half {
            let rest = pow_frac_exec(root, f - half, half / 2);
            root.mul(rest)
        } else {
            pow_frac_exec(root, f, half / 2)
        }
    }
}

impl Fx {
    /// `self` raised to the power `e`, for `e >= 0`.
    fn pow_up(self, e: Fx) -> (r: Fx)
        requires
            e@ >= 0,
        ensures
            r@ == fx_pow_up(self@, e@),
    {
        let base = self.max(Fx { raw: 0 });
        let whole = pow_whole_exec(base, e.floor_int() as u64);
        let part = pow_frac_exec(base, e.fract().raw as u64, 2147483648);
        whole.mul(part)
    }

    /// `self` raised to the power `e`.
    ///
    /// A negative base counts as zero. The whole part of the exponent is
    /// applied by repeated squaring and its fractional part, to thirty-two binary
    /// digits, by repeated square roots.
    pub fn pow(self, e: Fx) -> (r: Fx)
        ensures
            r@ == fx_pow(self@, e@),
            0 <= self@ <= 4294967296 && 0 <= e@ ==> 0 <= r@ <= 4294967296,
    {
        proof {
            if 0 <= self@ <= 4294967296 && 0 <= e@ {
                lemma_pow_unit(self@, e@);
            }
        }
        if e.raw < 0 {
            Fx { raw: 4294967296 }.div(self.pow_up(e.neg()))
        } else {
            self.pow_up(e)
        }
    }
}

} // verus!
