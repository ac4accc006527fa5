//! Two-, three- and four-component vectors of fixed-point scalars.

use vstd::prelude::*;
use crate::elementary::{isqrt, isqrt_u128};
use crate::fixed::{
    fx_add, fx_div, fx_lerp, fx_mul, fx_neg, fx_sub, fx_unit, lemma_product_bound, sat,
    saturate_i128, Fx,
};

verus! {

/// Mathematical model of a two-component vector: its raw components.
pub struct V2 {
    pub x: int,
    pub y: int,
}

/// Mathematical model of a three-component vector: its raw components.
pub struct V3 {
    pub x: int,
    pub y: int,
    pub z: int,
}

/// Mathematical model of a four-component vector: its raw components.
pub struct V4 {
    pub x: int,
    pub y: int,
    pub z: int,
    pub w: int,
}

/// Componentwise sum.
pub open spec fn v3_add(a: V3, b: V3) -> V3 {
    V3 { x: fx_add(a.x, b.x), y: fx_add(a.y, b.y), z: fx_add(a.z, b.z) }
}

/// Componentwise difference.
pub open spec fn v3_sub(a: V3, b: V3) -> V3 {
    V3 { x: fx_sub(a.x, b.x), y: fx_sub(a.y, b.y), z: fx_sub(a.z, b.z) }
}

/// Componentwise negation.
pub open spec fn v3_neg(a: V3) -> V3 {
    V3 { x: fx_neg(a.x), y: fx_neg(a.y), z: fx_neg(a.z) }
}

/// Every component multiplied by the scalar `s`.
pub open spec fn v3_scale(a: V3, s: int) -> V3 {
    V3 { x: fx_mul(a.x, s), y: fx_mul(a.y, s), z: fx_mul(a.z, s) }
}

/// Every component divided by the scalar `s`; the zero vector when `s` is zero.
pub open spec fn v3_div(a: V3, s: int) -> V3 {
    V3 { x: fx_div(a.x, s), y: fx_div(a.y, s), z: fx_div(a.z, s) }
}

/// Dot product: each product is rounded down, the sum is clamped.
pub open spec fn v3_dot(a: V3, b: V3) -> int {
    sat((a.x * b.x) / 4294967296 + (a.y * b.y) / 4294967296 + (a.z * b.z) / 4294967296)
}

/// Cross product.
pub open spec fn v3_cross(a: V3, b: V3) -> V3 {
    V3 {
        x: fx_sub(fx_mul(a.y, b.z), fx_mul(a.z, b.y)),
        y: fx_sub(fx_mul(a.z, b.x), fx_mul(a.x, b.z)),
        z: fx_sub(fx_mul(a.x, b.y), fx_mul(a.y, b.x)),
    }
}

/// Euclidean length: the integer square root of the exact sum of the squared
/// raw components, clamped.
pub open spec fn v3_length(a: V3) -> int {
    sat(isqrt(a.x * a.x + a.y * a.y + a.z * a.z))
}

/// Whether every raw component of a vector is less than `2^30` in absolute
/// value, so that the vector is shorter than a half in each direction.
pub open spec fn v3_short(a: V3) -> bool {
    &&& -0x4000_0000 < a.x < 0x4000_0000
    &&& -0x4000_0000 < a.y < 0x4000_0000
    &&& -0x4000_0000 < a.z < 0x4000_0000
}

/// The vector with every raw component multiplied by `2^31`.
pub open spec fn v3_enlarged(a: V3) -> V3 {
    V3 { x: a.x * 2147483648, y: a.y * 2147483648, z: a.z * 2147483648 }
}

/// The vector divided by its length; the zero vector has no direction and is
/// mapped to itself. A short vector is enlarged first, so that its
/// direction is kept to the last digit.
pub open spec fn v3_normalize(a: V3) -> V3 {
    let b = if v3_short(a) { v3_enlarged(a) } else { a };
    v3_div(b, v3_length(b))
}

/// Componentwise linear blend.
pub open spec fn v3_lerp(a: V3, b: V3, t: int) -> V3 {
    V3 { x: fx_lerp(a.x, b.x, t), y: fx_lerp(a.y, b.y, t), z: fx_lerp(a.z, b.z, t) }
}

/// Every component limited to the unit interval.
pub open spec fn v3_unit(a: V3) -> V3 {
    V3 { x: fx_unit(a.x), y: fx_unit(a.y), z: fx_unit(a.z) }
}

/// A three-component vector extended by a fourth component.
pub open spec fn v4_from(v: V3, w: int) -> V4 {
    V4 { x: v.x, y: v.y, z: v.z, w }
}

/// The first three components of a vector.
pub open spec fn v4_xyz(v: V4) -> V3 {
    V3 { x: v.x, y: v.y, z: v.z }
}

/// Four-component dot product: each product is rounded down, the sum is clamped.
pub open spec fn v4_dot(a: V4, b: V4) -> int {
    sat((a.x * b.x) / 4294967296 + (a.y * b.y) / 4294967296 + (a.z * b.z) / 4294967296 + (a.w * b.w) / 4294967296)
}

/// The square of a quotient rounded down, times the square of the divisor,
/// is close to the square of the dividend, whose absolute value is `m`.
pub proof fn lemma_quotient_square(a: int, m: int, len: int, n: int)
    requires
        len > 0,
        n == a / len,
        -m <= a <= m,
    ensures
        n * len <= a < n * len + len,
        (n * n) * (len * len) >= a * a - 2 * (m * len),
        (n * n) * (len * len) <= a * a + 2 * (m * len) + len * len,
{
    vstd::arithmetic::div_mod::lemma_fundamental_div_mod(a, len);
    vstd::arithmetic::div_mod::lemma_mod_bound(a, len);
    let d = a % len;
    let b = n * len;
    assert(len * n == n * len) by (nonlinear_arith);
    assert(b == a - d);
    assert((n * n) * (len * len) == b * b) by (nonlinear_arith)
        requires
            b == n * len,
    ;
    let p = a * d;
    assert(b * b == a * a - 2 * p + d * d) by (nonlinear_arith)
        requires
            b == a - d,
            p == a * d,
    ;
    assert(-(m * len) <= p <= m * len) by (nonlinear_arith)
        requires
            p == a * d,
            -m <= a <= m,
            0 <= d < len,
    ;
    assert(0 <= d * d <= len * len) by (nonlinear_arith)
        requires
            0 <= d < len,
    ;
}

/// A component of a vector is no longer than the vector.
pub proof fn lemma_component_bound(x: int, rest: int, len: int)
    requires
        rest >= 0,
        len >= 0,
        x * x + rest < (len + 1) * (len + 1),
    ensures
        -len <= x <= len,
{
    if x > len {
        assert(x * x >= (len + 1) * (len + 1)) by (nonlinear_arith)
            requires
                x >= len + 1,
                len >= 0,
        ;
    }
    if x < -len {
        assert(x * x >= (len + 1) * (len + 1)) by (nonlinear_arith)
            requires
                x <= -(len + 1),
                len >= 0,
        ;
    }
}

/// The square of a raw component of bounded size is bounded.
pub proof fn lemma_square_bound(x: int)
    requires
        -0x2000_0000_0000_0000 <= x <= 0x2000_0000_0000_0000,
    ensures
        0 <= x * x <= 0x400_0000_0000_0000_0000_0000_0000_0000,
{
    assert(0 <= x * x <= 0x2000_0000_0000_0000 * 0x2000_0000_0000_0000) by (nonlinear_arith)
        requires
            -0x2000_0000_0000_0000 <= x <= 0x2000_0000_0000_0000,
    ;
}

/// A vector that is not zero, brought to unit length, has a length within
/// `2^-23` of one.
pub proof fn lemma_normalize_is_unit(v: V3)
    requires
        v3_moderate(v),
        v != (V3 { x: 0, y: 0, z: 0 }),
    ensures
        4294967296 - 4 <= v3_length(v3_normalize(v)) <= 4294967296 + 512,
{
    let b = if v3_short(v) { v3_enlarged(v) } else { v };
    let total = b.x * b.x + b.y * b.y + b.z * b.z;
    lemma_square_bound(b.x);
    lemma_square_bound(b.y);
    lemma_square_bound(b.z);
    crate::elementary::lemma_isqrt_exists(total);
    let len = isqrt(total);
    // one component of `b` is at least 2^30 in absolute value
    let big = if b.x >= 0x4000_0000 || b.x <= -0x4000_0000 {
        b.x
    } else if b.y >= 0x4000_0000 || b.y <= -0x4000_0000 {
        b.y
    } else {
        b.z
    };
    assert(big >= 0x4000_0000 || big <= -0x4000_0000);
    assert(big * big >= 0x4000_0000 * 0x4000_0000) by (nonlinear_arith)
        requires
            big >= 0x4000_0000 || big <= -0x4000_0000,
    ;
    if len < 0x4000_0000 {
        crate::elementary::lemma_square_monotonic(len + 1, 0x4000_0000);
    }
    if len >= 0x4000_0000_0000_0000 {
        crate::elementary::lemma_square_monotonic(0x4000_0000_0000_0000, len);
        assert(0x4000_0000_0000_0000int * 0x4000_0000_0000_0000
            == 0x1000_0000_0000_0000_0000_0000_0000_0000) by (nonlinear_arith);
    }
    assert(v3_length(b) == len);
    lemma_long_vector_is_unit(b);
}

/// A vector of length at least `2^-8`, divided by its length, has a length
/// within `2^-23` of one.
pub proof fn lemma_long_vector_is_unit(v: V3)
    requires
        -0x2000_0000_0000_0000 <= v.x <= 0x2000_0000_0000_0000,
        -0x2000_0000_0000_0000 <= v.y <= 0x2000_0000_0000_0000,
        -0x2000_0000_0000_0000 <= v.z <= 0x2000_0000_0000_0000,
        v3_length(v) >= 0x100_0000,
    ensures
        4294967296 - 4 <= v3_length(v3_div(v, v3_length(v))) <= 4294967296 + 512,
{
    let one = 4294967296int;
    let oo = one * one;
    let xx = v.x * v.x;
    let yy = v.y * v.y;
    let zz = v.z * v.z;
    lemma_square_bound(v.x);
    lemma_square_bound(v.y);
    lemma_square_bound(v.z);
    let total = xx + yy + zz;
    let len = isqrt(total);
    crate::elementary::lemma_isqrt_exists(total);
    if len >= 0x4000_0000_0000_0000 {
        crate::elementary::lemma_square_monotonic(0x4000_0000_0000_0000, len);
        assert(0x4000_0000_0000_0000int * 0x4000_0000_0000_0000
            == 0x1000_0000_0000_0000_0000_0000_0000_0000) by (nonlinear_arith);
    }
    assert(v3_length(v) == len);
    lemma_component_bound(v.x, yy + zz, len);
    lemma_component_bound(v.y, xx + zz, len);
    lemma_component_bound(v.z, xx + yy, len);
    let ll = len * len;
    assert(ll > 0 && ll >= len) by (nonlinear_arith)
        requires
            ll == len * len,
            len >= 1,
    ;
    let lo = len * one;
    let ax = v.x * one;
    let ay = v.y * one;
    let az = v.z * one;
    let nx = ax / len;
    let ny = ay / len;
    let nz = az / len;
    lemma_quotient_square(ax, lo, len, nx);
    lemma_quotient_square(ay, lo, len, ny);
    lemma_quotient_square(az, lo, len, nz);
    lemma_quotient_in_unit(ax, len, nx);
    lemma_quotient_in_unit(ay, len, ny);
    lemma_quotient_in_unit(az, len, nz);
    let n = v3_div(v, v3_length(v));
    assert(n.x == nx && n.y == ny && n.z == nz);
    let sq = nx * nx + ny * ny + nz * nz;
    assert(ax * ax == oo * xx && ay * ay == oo * yy && az * az == oo * zz) by (nonlinear_arith)
        requires
            ax == v.x * one,
            ay == v.y * one,
            az == v.z * one,
            xx == v.x * v.x,
            yy == v.y * v.y,
            zz == v.z * v.z,
            oo == one * one,
    ;
    assert(oo * total == oo * xx + oo * yy + oo * zz) by (nonlinear_arith)
        requires
            total == xx + yy + zz,
    ;
    assert(sq * ll == (nx * nx) * ll + (ny * ny) * ll + (nz * nz) * ll) by (nonlinear_arith)
        requires
            sq == nx * nx + ny * ny + nz * nz,
    ;
    assert(lo * len == one * ll) by (nonlinear_arith)
        requires
            lo == len * one,
            ll == len * len,
    ;
    assert(oo * total >= oo * ll && oo * total <= oo * ll + 2 * (oo * len)) by (nonlinear_arith)
        requires
            ll == len * len,
            ll <= total,
            total < (len + 1) * (len + 1),
            oo > 0,
    ;
    assert(sq * ll >= oo * ll - 6 * (one * ll));
    assert((oo - 6 * one) * ll == oo * ll - 6 * (one * ll)) by (nonlinear_arith);
    assert(sq >= oo - 6 * one) by (nonlinear_arith)
        requires
            sq * ll >= (oo - 6 * one) * ll,
            ll > 0,
    ;
    assert(2 * (oo * len) <= 0x200_0000_0000 * ll) by (nonlinear_arith)
        requires
            len >= 0x100_0000,
            ll == len * len,
            oo == 0x1_0000_0000_0000_0000,
    ;
    assert(sq * ll <= oo * ll + 0x200_0000_0000 * ll + 6 * (one * ll) + 3 * ll);
    assert((oo + 0x200_0000_0000 + 6 * one + 3) * ll == oo * ll + 0x200_0000_0000 * ll + 6 * (one
        * ll) + 3 * ll) by (nonlinear_arith);
    assert(sq <= oo + 0x200_0000_0000 + 6 * one + 3) by (nonlinear_arith)
        requires
            sq * ll <= (oo + 0x200_0000_0000 + 6 * one + 3) * ll,
            ll > 0,
    ;
    let r = isqrt(sq);
    assert(sq >= 0);
    crate::elementary::lemma_isqrt_exists(sq);
    if r < one - 4 {
        crate::elementary::lemma_square_monotonic(r + 1, one - 4);
    }
    if r > one + 512 {
        crate::elementary::lemma_square_monotonic(one + 513, r);
    }
    assert(v3_length(n) == r);
}

/// The quotient of a scalar by one that is at least as large in absolute
/// value lies between minus one and one.
pub proof fn lemma_quotient_in_unit(a: int, len: int, n: int)
    requires
        len > 0,
        n == a / len,
        -(len * 4294967296) <= a <= len * 4294967296,
    ensures
        -4294967296 <= n <= 4294967296,
{
    vstd::arithmetic::div_mod::lemma_fundamental_div_mod(a, len);
    vstd::arithmetic::div_mod::lemma_mod_bound(a, len);
    assert(-4294967296 <= n <= 4294967296) by (nonlinear_arith)
        requires
            len > 0,
            a == len * n + a % len,
            0 <= a % len < len,
            -(len * 4294967296) <= a <= len * 4294967296,
    ;
}

/// Whether every raw component of a vector lies within `2^61`.
pub open spec fn v3_moderate(v: V3) -> bool {
    &&& -0x2000_0000_0000_0000 <= v.x <= 0x2000_0000_0000_0000
    &&& -0x2000_0000_0000_0000 <= v.y <= 0x2000_0000_0000_0000
    &&& -0x2000_0000_0000_0000 <= v.z <= 0x2000_0000_0000_0000
}

/// A two-component vector.
#[derive(Clone, Copy, Debug, PartialEq, Eq, Structural)]
pub struct Vec2 {
    pub x: Fx,
    pub y: Fx,
}

/// A three-component vector.
#[derive(Clone, Copy, Debug, PartialEq, Eq, Structural)]
pub struct Vec3 {
    pub x: Fx,
    pub y: Fx,
    pub z: Fx,
}

/// A four-component vector.
#[derive(Clone, Copy, Debug, PartialEq, Eq, Structural)]
pub struct Vec4 {
    pub x: Fx,
    pub y: Fx,
    pub z: Fx,
    pub w: Fx,
}

impl View for Vec2 {
    type V = V2;

    open spec fn view(&self) -> V2 {
        V2 { x: self.x@, y: self.y@ }
    }
}

impl View for Vec3 {
    type V = V3;

    open spec fn view(&self) -> V3 {
        V3 { x: self.x@, y: self.y@, z: self.z@ }
    }
}

impl View for Vec4 {
    type V = V4;

    open spec fn view(&self) -> V4 {
        V4 { x: self.x@, y: self.y@, z: self.z@, w: self.w@ }
    }
}

/// The rounded-down product of two raw values, not clamped.
fn product_floor(a: i64, b: i64) -> (r: i128)
    ensures
        r as int == (a as int * b as int) / 4294967296,
        -0x4000_0000_0000_0000_0000_0000_0000 <= r <= 0x4000_0000_0000_0000_0000_0000_0000,
{
    proof {
        lemma_product_bound(a as int, b as int);
    }
    let p: i128 = (a as i128) * (b as i128);
    if p >= 0 {
        p / 4294967296
    } else {
        -((4294967295 - p) / 4294967296)
    }
}

impl Vec2 {
    /// The vector with the given components.
    pub fn new(x: Fx, y: Fx) -> (r: Vec2)
        ensures
            r@ == (V2 { x: x@, y: y@ }),
    {
        Vec2 { x, y }
    }
}

impl Vec3 {
    /// The vector with the given components.
    pub fn new(x: Fx, y: Fx, z: Fx) -> (r: Vec3)
        ensures
            r@ == (V3 { x: x@, y: y@, z: z@ }),
    {
        Vec3 { x, y, z }
    }

    /// The zero vector.
    pub fn zero() -> (r: Vec3)
        ensures
            r@ == (V3 { x: 0, y: 0, z: 0 }),
    {
        Vec3 { x: Fx::zero(), y: Fx::zero(), z: Fx::zero() }
    }

    /// The vector of three whole numbers.
    pub fn from_ints(x: i32, y: i32, z: i32) -> (r: Vec3)
        ensures
            r@ == (V3 { x: x * 4294967296, y: y * 4294967296, z: z * 4294967296 }),
    {
        Vec3 { x: Fx::from_int(x), y: Fx::from_int(y), z: Fx::from_int(z) }
    }

    /// Componentwise sum.
    pub fn add(self, other: Vec3) -> (r: Vec3)
        ensures
            r@ == v3_add(self@, other@),
    {
        Vec3 { x: self.x.add(other.x), y: self.y.add(other.y), z: self.z.add(other.z) }
    }

    /// Componentwise difference.
    pub fn sub(self, other: Vec3) -> (r: Vec3)
        ensures
            r@ == v3_sub(self@, other@),
    {
        Vec3 { x: self.x.sub(other.x), y: self.y.sub(other.y), z: self.z.sub(other.z) }
    }

    /// Componentwise negation.
    pub fn neg(self) -> (r: Vec3)
        ensures
            r@ == v3_neg(self@),
    {
        Vec3 { x: self.x.neg(), y: self.y.neg(), z: self.z.neg() }
    }

    /// Every component multiplied by `s`.
    pub fn scale(self, s: Fx) -> (r: Vec3)
        ensures
            r@ == v3_scale(self@, s@),
    {
        Vec3 { x: self.x.mul(s), y: self.y.mul(s), z: self.z.mul(s) }
    }

    /// Dot product.
    pub fn dot(self, other: Vec3) -> (r: Fx)
        ensures
            r@ == v3_dot(self@, other@),
    {
        let px = product_floor(self.x.raw, other.x.raw);
        let py = product_floor(self.y.raw, other.y.raw);
        let pz = product_floor(self.z.raw, other.z.raw);
        Fx { raw: saturate_i128(px + py + pz) }
    }

    /// Cross product.
    pub fn cross(self, other: Vec3) -> (r: Vec3)
        ensures
            r@ == v3_cross(self@, other@),
    {
        Vec3 {
            x: self.y.mul(other.z).sub(self.z.mul(other.y)),
            y: self.z.mul(other.x).sub(self.x.mul(other.z)),
            z: self.x.mul(other.y).sub(self.y.mul(other.x)),
        }
    }

    /// Euclidean length.
    pub fn length(self) -> (r: Fx)
        ensures
            r@ == v3_length(self@),
            r@ >= 0,
    {
        proof {
            lemma_product_bound(self.x@, self.x@);
            lemma_product_bound(self.y@, self.y@);
            lemma_product_bound(self.z@, self.z@);
            assert(self.x@ * self.x@ >= 0) by (nonlinear_arith);
            assert(self.y@ * self.y@ >= 0) by (nonlinear_arith);
            assert(self.z@ * self.z@ >= 0) by (nonlinear_arith);
        }
        let xx: u128 = ((self.x.raw as i128) * (self.x.raw as i128)) as u128;
        let yy: u128 = ((self.y.raw as i128) * (self.y.raw as i128)) as u128;
        let zz: u128 = ((self.z.raw as i128) * (self.z.raw as i128)) as u128;
        let root: u128 = isqrt_u128(xx + yy + zz);
        Fx { raw: saturate_i128(root as i128) }
    }

    /// The vector scaled to unit length; the zero vector is returned unchanged.
    ///
    /// For every other vector whose components lie within `2^29`, the length
    /// of the result is within `2^-23` of one.
    pub fn normalize(self) -> (r: Vec3)
        ensures
            r@ == v3_normalize(self@),
            self@ == (V3 { x: 0, y: 0, z: 0 }) ==> r@ == self@,
            v3_moderate(self@) && self@ != (V3 { x: 0, y: 0, z: 0 }) ==> 4294967296 - 4
                <= v3_length(r@) <= 4294967296 + 512,
    {
        proof {
            if v3_moderate(self@) && self@ != (V3 { x: 0, y: 0, z: 0 }) {
                lemma_normalize_is_unit(self@);
            }
            if self@ == (V3 { x: 0, y: 0, z: 0 }) {
                let z = 0int;
                assert(z * 2147483648 == 0 && z * z + z * z + z * z == 0) by (nonlinear_arith)
                    requires
                        z == 0,
                ;
            }
        }
        let short = -0x4000_0000 < self.x.raw && self.x.raw < 0x4000_0000 && -0x4000_0000
            < self.y.raw && self.y.raw < 0x4000_0000 && -0x4000_0000 < self.z.raw && self.z.raw
            < 0x4000_0000;
        let b = if short {
            Vec3 {
                x: Fx { raw: self.x.raw * 2147483648 },
                y: Fx { raw: self.y.raw * 2147483648 },
                z: Fx { raw: self.z.raw * 2147483648 },
            }
        } else {
            self
        };
        let len = b.length();
        Vec3 { x: b.x.div(len), y: b.y.div(len), z: b.z.div(len) }
    }

    /// Componentwise blend `self + (other - self) * t`.
    pub fn lerp(self, other: Vec3, t: Fx) -> (r: Vec3)
        ensures
            r@ == v3_lerp(self@, other@, t@),
    {
        Vec3 {
            x: self.x.lerp(other.x, t),
            y: self.y.lerp(other.y, t),
            z: self.z.lerp(other.z, t),
        }
    }

    /// Every component limited to the unit interval.
    pub fn clamp01(self) -> (r: Vec3)
        ensures
            r@ == v3_unit(self@),
    {
        Vec3 { x: self.x.unit(), y: self.y.unit(), z: self.z.unit() }
    }
}

impl Vec4 {
    /// The vector with the given components.
    pub fn new(x: Fx, y: Fx, z: Fx, w: Fx) -> (r: Vec4)
        ensures
            r@ == (V4 { x: x@, y: y@, z: z@, w: w@ }),
    {
        Vec4 { x, y, z, w }
    }

    /// A three-component vector extended by a fourth component.
    pub fn from3(v: Vec3, w: Fx) -> (r: Vec4)
        ensures
            r@ == v4_from(v@, w@),
    {
        Vec4 { x: v.x, y: v.y, z: v.z, w }
    }

    /// The first three components.
    pub fn xyz(self) -> (r: Vec3)
        ensures
            r@ == v4_xyz(self@),
    {
        Vec3 { x: self.x, y: self.y, z: self.z }
    }

    /// Dot product.
    pub fn dot(self, other: Vec4) -> (r: Fx)
        ensures
            r@ == v4_dot(self@, other@),
    {
        let px = product_floor(self.x.raw, other.x.raw);
        let py = product_floor(self.y.raw, other.y.raw);
        let pz = product_floor(self.z.raw, other.z.raw);
        let pw = product_floor(self.w.raw, other.w.raw);
        Fx { raw: saturate_i128(px + py + pz + pw) }
    }
}

} // verus!
