//! Three-dimensional procedural noise: a lattice value noise with smooth
//! interpolation, a simplex noise and a cellular noise, behind one selector,
//! and the fractal sum built on them.

use vstd::prelude::*;
use crate::elementary::fx_sin;
use crate::fixed::{
    fx_add, fx_div, fx_floor, fx_floor_int, fx_fract, fx_min, fx_mul, fx_neg, fx_ratio, fx_sub,
    fx_unit, Fx,
};
use crate::math::vec::{v3_add, v3_length, v3_scale, v3_sub, Vec3, V3};

verus! {

/// Which noise primitive to evaluate.
#[derive(Clone, Copy, Debug, PartialEq, Eq, Structural)]
pub enum NoiseType {
    Perlin,
    Simplex,
    Cellular,
}

impl Default for NoiseType {
    fn default() -> (r: NoiseType)
        ensures
            r == NoiseType::Perlin,
    {
        NoiseType::Perlin
    }
}

/// The lattice coordinate of a raw scalar: its whole part, reduced to 32 bits.
pub open spec fn lattice(a: int) -> i32 {
    fx_floor_int(a) as i32
}

/// Bit mixing of three lattice coordinates into one 32-bit word.
pub open spec fn mix_bits(x: i32, y: i32, z: i32) -> i32 {
    let n = x.wrapping_mul(374761393).wrapping_add(y.wrapping_mul(668265263)).wrapping_add(
        z.wrapping_mul(1013904223),
    );
    let m = (n ^ (n >> 13)).wrapping_mul(1274126177);
    m ^ (m >> 16)
}

/// The pseudo-random value of a lattice point: the mixed word, moved from
/// `[-2^31, 2^31)` to the raw range `[0, 4294967296)`.
pub open spec fn lattice_value(x: i32, y: i32, z: i32) -> int {
    mix_bits(x, y, z) + 0x8000_0000
}

/// The fade curve `6 t^5 - 15 t^4 + 10 t^3` on the unit interval, evaluated
/// as `t^3 (t (6 t - 15) + 10)` with one rounding per product; arguments
/// outside the interval are clamped.
pub open spec fn fade_curve(t: int) -> int {
    let u = fx_unit(t);
    let cube = fx_mul(fx_mul(u, u), u);
    let inner = fx_add(fx_mul(u, fx_sub(fx_mul(25769803776, u), 64424509440)), 42949672960);
    fx_unit(fx_mul(cube, inner))
}

/// The convex combination `a * (1 - t) + b * t`, evaluated exactly and rounded
/// down once.
pub open spec fn blend(a: int, b: int, t: int) -> int {
    (a * (4294967296 - t) + b * t) / 4294967296
}

/// Value noise at `p`: the values of the eight corners of the lattice cell
/// around `p`, blended along x, then y, then z with faded weights.
pub open spec fn perlin(p: V3) -> int {
    let ix = lattice(p.x);
    let iy = lattice(p.y);
    let iz = lattice(p.z);
    let jx = ix.wrapping_add(1);
    let jy = iy.wrapping_add(1);
    let jz = iz.wrapping_add(1);
    let u = fade_curve(fx_fract(p.x));
    let v = fade_curve(fx_fract(p.y));
    let w = fade_curve(fx_fract(p.z));
    let x00 = blend(lattice_value(ix, iy, iz), lattice_value(jx, iy, iz), u);
    let x10 = blend(lattice_value(ix, jy, iz), lattice_value(jx, jy, iz), u);
    let x01 = blend(lattice_value(ix, iy, jz), lattice_value(jx, iy, jz), u);
    let x11 = blend(lattice_value(ix, jy, jz), lattice_value(jx, jy, jz), u);
    let y0 = blend(x00, x10, v);
    let y1 = blend(x01, x11, v);
    blend(y0, y1, w)
}

/// A blend of two unit-interval values with a unit-interval weight lies
/// between zero and one, and the weights zero and one select the ends.
pub proof fn lemma_blend_unit(a: int, b: int, t: int)
    requires
        0 <= a <= 4294967296,
        0 <= b <= 4294967296,
        0 <= t <= 4294967296,
    ensures
        0 <= blend(a, b, t) <= 4294967296,
        0 <= a * (4294967296 - t) + b * t <= 4294967296 * 4294967296,
        0 <= a * (4294967296 - t) <= 4294967296 * 4294967296,
        0 <= b * t <= 4294967296 * 4294967296,
        t == 0 ==> blend(a, b, t) == a,
        t == 4294967296 ==> blend(a, b, t) == b,
{
    assert(0 <= a * (4294967296 - t) <= 4294967296 * (4294967296 - t)) by (nonlinear_arith)
        requires
            0 <= a <= 4294967296,
            0 <= t <= 4294967296,
    ;
    assert(0 <= b * t <= 4294967296 * t) by (nonlinear_arith)
        requires
            0 <= b <= 4294967296,
            0 <= t <= 4294967296,
    ;
    if t == 0 {
        assert(b * t == 0 && a * (4294967296 - t) == a * 4294967296) by (nonlinear_arith)
            requires
                t == 0,
        ;
    }
    if t == 4294967296 {
        assert(a * (4294967296 - t) == 0 && b * t == b * 4294967296) by (nonlinear_arith)
            requires
                t == 4294967296,
        ;
    }
}

/// The fade curve is zero at zero and one at one.
pub proof fn lemma_fade_ends()
    ensures
        fade_curve(0) == 0,
        fade_curve(4294967296) == 4294967296,
{
    let u = 0int;
    assert(u * u == 0) by (nonlinear_arith)
        requires
            u == 0,
    ;
    let cube = fx_mul(fx_mul(u, u), u);
    assert(cube == 0);
    let inner = fx_add(fx_mul(u, fx_sub(fx_mul(25769803776, u), 64424509440)), 42949672960);
    assert(cube * inner == 0) by (nonlinear_arith)
        requires
            cube == 0,
    ;
    assert(fx_mul(4294967296, 4294967296) == 4294967296);
    assert(fx_mul(25769803776, 4294967296) == 25769803776);
    assert(fx_mul(4294967296, -38654705664) == -38654705664);
}

/// Mixes three lattice coordinates into one 32-bit word.
pub fn hash_bits(x: i32, y: i32, z: i32) -> (h: i32)
    ensures
        h == mix_bits(x, y, z),
{
    let n = x.wrapping_mul(374761393).wrapping_add(y.wrapping_mul(668265263)).wrapping_add(
        z.wrapping_mul(1013904223),
    );
    let m = (n ^ (n >> 13)).wrapping_mul(1274126177);
    m ^ (m >> 16)
}

/// The pseudo-random value in `[0, 1)` attached to the lattice point `(x, y, z)`.
pub fn hash(x: i32, y: i32, z: i32) -> (r: Fx)
    ensures
        r@ == lattice_value(x, y, z),
        0 <= r@ < 4294967296,
{
    let h = hash_bits(x, y, z);
    Fx { raw: h as i64 + 0x8000_0000 }
}

/// The fade curve `6 t^5 - 15 t^4 + 10 t^3`, with `t` clamped to the unit
/// interval. It is zero at zero and one at one.
pub fn fade(t: Fx) -> (r: Fx)
    ensures
        r@ == fade_curve(t@),
        0 <= r@ <= 4294967296,
        t@ <= 0 ==> r@ == 0,
        t@ >= 4294967296 ==> r@ == 4294967296,
{
    proof {
        lemma_fade_ends();
    }
    let u = t.unit();
    let cube = u.mul(u).mul(u);
    let inner = u.mul(Fx::from_int(6).mul(u).sub(Fx::from_int(15))).add(Fx::from_int(10));
    cube.mul(inner).unit()
}

/// Blends `a` and `b` with weight `t`, all in the unit interval.
fn blend_unit(a: Fx, b: Fx, t: Fx) -> (r: Fx)
    requires
        0 <= a@ <= 4294967296,
        0 <= b@ <= 4294967296,
        0 <= t@ <= 4294967296,
    ensures
        r@ == blend(a@, b@, t@),
        0 <= r@ <= 4294967296,
{
    proof {
        lemma_blend_unit(a@, b@, t@);
    }
    let total: i128 = (a.raw as i128) * ((4294967296 - t.raw) as i128) + (b.raw as i128) * (
    t.raw as i128);
    Fx { raw: (total / 4294967296) as i64 }
}

/// The lattice coordinate of a scalar.
fn lattice_of(a: Fx) -> (r: i32)
    ensures
        r == lattice(a@),
{
    #[verifier::truncate]
    (a.floor_int() as i32)
}

/// Value noise at `p`, in `[0, 1]`.
///
/// The cell of the integer lattice that holds `p` is found, each of its eight
/// corners is given the pseudo-random value of its coordinates, and the values
/// are blended along the three axes with the faded fractional parts of `p` as
/// weights. Lattice coordinates wrap around at 32 bits.
pub fn perlin_3d(p: Vec3) -> (r: Fx)
    ensures
        r@ == perlin(p@),
        0 <= r@ <= 4294967296,
        fx_fract(p@.x) == 0 && fx_fract(p@.y) == 0 && fx_fract(p@.z) == 0 ==> r@ == lattice_value(
            lattice(p@.x),
            lattice(p@.y),
            lattice(p@.z),
        ),
{
    proof {
        if fx_fract(p@.x) == 0 && fx_fract(p@.y) == 0 && fx_fract(p@.z) == 0 {
            lemma_perlin_at_lattice_point(p@);
        }
    }
    let ix = lattice_of(p.x);
    let iy = lattice_of(p.y);
    let iz = lattice_of(p.z);
    let jx = ix.wrapping_add(1);
    let jy = iy.wrapping_add(1);
    let jz = iz.wrapping_add(1);

    let u = fade(p.x.fract());
    let v = fade(p.y.fract());
    let w = fade(p.z.fract());

    let c000 = hash(ix, iy, iz);
    let c100 = hash(jx, iy, iz);
    let c010 = hash(ix, jy, iz);
    let c110 = hash(jx, jy, iz);
    let c001 = hash(ix, iy, jz);
    let c101 = hash(jx, iy, jz);
    let c011 = hash(ix, jy, jz);
    let c111 = hash(jx, jy, jz);

    let x00 = blend_unit(c000, c100, u);
    let x10 = blend_unit(c010, c110, u);
    let x01 = blend_unit(c001, c101, u);
    let x11 = blend_unit(c011, c111, u);

    let y0 = blend_unit(x00, x10, v);
    let y1 = blend_unit(x01, x11, v);

    blend_unit(y0, y1, w)
}

/// At a point whose three coordinates are whole numbers, the value noise is
/// the pseudo-random value of that lattice point.
pub proof fn lemma_perlin_at_lattice_point(p: V3)
    requires
        fx_fract(p.x) == 0,
        fx_fract(p.y) == 0,
        fx_fract(p.z) == 0,
    ensures
        perlin(p) == lattice_value(lattice(p.x), lattice(p.y), lattice(p.z)),
{
    let ix = lattice(p.x);
    let iy = lattice(p.y);
    let iz = lattice(p.z);
    let jx = ix.wrapping_add(1);
    let jy = iy.wrapping_add(1);
    let jz = iz.wrapping_add(1);
    lemma_fade_ends();
    lemma_lattice_value_unit(ix, iy, iz);
    lemma_lattice_value_unit(jx, iy, iz);
    lemma_lattice_value_unit(ix, jy, iz);
    lemma_lattice_value_unit(jx, jy, iz);
    lemma_lattice_value_unit(ix, iy, jz);
    lemma_lattice_value_unit(jx, iy, jz);
    lemma_lattice_value_unit(ix, jy, jz);
    lemma_lattice_value_unit(jx, jy, jz);
    lemma_blend_unit(lattice_value(ix, iy, iz), lattice_value(jx, iy, iz), 0);
    lemma_blend_unit(lattice_value(ix, jy, iz), lattice_value(jx, jy, iz), 0);
    lemma_blend_unit(lattice_value(ix, iy, jz), lattice_value(jx, iy, jz), 0);
    lemma_blend_unit(lattice_value(ix, jy, jz), lattice_value(jx, jy, jz), 0);
    let x00 = blend(lattice_value(ix, iy, iz), lattice_value(jx, iy, iz), 0);
    let x10 = blend(lattice_value(ix, jy, iz), lattice_value(jx, jy, iz), 0);
    let x01 = blend(lattice_value(ix, iy, jz), lattice_value(jx, iy, jz), 0);
    let x11 = blend(lattice_value(ix, jy, jz), lattice_value(jx, jy, jz), 0);
    lemma_blend_unit(x00, x10, 0);
    lemma_blend_unit(x01, x11, 0);
    lemma_blend_unit(blend(x00, x10, 0), blend(x01, x11, 0), 0);
}

/// The value of a lattice point lies in `[0, 4294967296)`.
pub proof fn lemma_lattice_value_unit(x: i32, y: i32, z: i32)
    ensures
        0 <= lattice_value(x, y, z) < 4294967296,
{
}

/// Raw skew factor of the simplex grid, one third.
pub const SKEW_RAW: i64 = 1431655765;

/// Raw unskew factor of the simplex grid, one sixth.
pub const UNSKEW_RAW: i64 = 715827882;

/// Raw squared radius of influence of a simplex corner, six tenths.
pub const CORNER_RADIUS_RAW: i64 = 2576980377;

/// Integer scrambling used to pick the gradient of a simplex corner.
pub open spec fn scramble(i: i32) -> i32 {
    let n = i.wrapping_mul(1619);
    let m = (n >> 13) ^ n;
    m.wrapping_mul(m.wrapping_mul(m).wrapping_mul(60493).wrapping_add(19990303)).wrapping_add(
        1376312589,
    )
}

/// The gradient selector of the grid corner `(i, j, k)`: the three coordinates
/// are scrambled one inside the other.
pub open spec fn gradient_index(i: i32, j: i32, k: i32) -> i32 {
    scramble(i.wrapping_add(scramble(j.wrapping_add(scramble(k)))))
}

/// The dot product of `(x, y, z)` with one of twelve gradient directions,
/// chosen by the low four bits `h` of `hash`.
///
/// The first term is `x` for `h < 8` and `y` otherwise; the second is `y` for
/// `h < 4`, `x` for `h` equal to 12 or 14, and `z` otherwise. Bit 0 of `h`
/// negates the first term, bit 1 the second.
pub open spec fn gradient_dot(hash: i32, x: int, y: int, z: int) -> int {
    let h = hash % 16;
    let u = if h < 8 { x } else { y };
    let v = if h < 4 { y } else if h == 12 || h == 14 { x } else { z };
    fx_add(
        if h % 2 == 0 { u } else { fx_neg(u) },
        if (h / 2) % 2 == 0 { v } else { fx_neg(v) },
    )
}

/// Grid offsets of the second and third corner of a simplex.
#[derive(Clone, Copy, Debug, PartialEq, Eq, Structural)]
pub struct SimplexOffsets {
    pub i1: i32,
    pub j1: i32,
    pub k1: i32,
    pub i2: i32,
    pub j2: i32,
    pub k2: i32,
}

/// The simplex that holds a point at offset `(x0, y0, z0)` from its first
/// corner: the second corner lies one step along the largest coordinate, the
/// third one step further along the middle one. Ties are resolved by the fixed
/// order of comparisons `x >= y`, `y >= z`, `x >= z`.
pub open spec fn simplex_offsets(x0: int, y0: int, z0: int) -> SimplexOffsets {
    if x0 >= y0 {
        if y0 >= z0 {
            SimplexOffsets { i1: 1, j1: 0, k1: 0, i2: 1, j2: 1, k2: 0 }
        } else if x0 >= z0 {
            SimplexOffsets { i1: 1, j1: 0, k1: 0, i2: 1, j2: 0, k2: 1 }
        } else {
            SimplexOffsets { i1: 0, j1: 0, k1: 1, i2: 1, j2: 0, k2: 1 }
        }
    } else {
        if y0 < z0 {
            SimplexOffsets { i1: 0, j1: 0, k1: 1, i2: 0, j2: 1, k2: 1 }
        } else if x0 < z0 {
            SimplexOffsets { i1: 0, j1: 1, k1: 0, i2: 0, j2: 1, k2: 1 }
        } else {
            SimplexOffsets { i1: 0, j1: 1, k1: 0, i2: 1, j2: 1, k2: 0 }
        }
    }
}

/// The contribution of one simplex corner to the noise at offset `(x, y, z)`
/// from it: `(0.6 - r^2)^4` times the gradient dot product, and zero where
/// `0.6 - r^2` is not positive.
pub open spec fn simplex_corner(gi: i32, x: int, y: int, z: int) -> int {
    let t = fx_sub(fx_sub(fx_sub(2576980377, fx_mul(x, x)), fx_mul(y, y)), fx_mul(z, z));
    if t > 0 {
        let t2 = fx_mul(t, t);
        fx_mul(fx_mul(t2, t2), gradient_dot(gi, x, y, z))
    } else {
        0
    }
}

/// Simplex noise at `p`.
///
/// The point is skewed by a third of its coordinate sum onto the cubic grid,
/// the cell origin is unskewed by a sixth of its coordinate sum, and the four
/// corners of the simplex that holds the point contribute. The sum is scaled
/// by 32 and moved from around `[-1, 1]` to around `[0, 1]`; it is not clamped.
pub open spec fn simplex(p: V3) -> int {
    let s = fx_mul(fx_add(fx_add(p.x, p.y), p.z), 1431655765);
    let sx = fx_add(p.x, s);
    let sy = fx_add(p.y, s);
    let sz = fx_add(p.z, s);
    let t = fx_mul(fx_add(fx_add(fx_floor(sx), fx_floor(sy)), fx_floor(sz)), 715827882);
    let x0 = fx_sub(p.x, fx_sub(fx_floor(sx), t));
    let y0 = fx_sub(p.y, fx_sub(fx_floor(sy), t));
    let z0 = fx_sub(p.z, fx_sub(fx_floor(sz), t));
    let o = simplex_offsets(x0, y0, z0);
    let ii = (lattice(sx) % 256) as i32;
    let jj = (lattice(sy) % 256) as i32;
    let kk = (lattice(sz) % 256) as i32;
    let c0 = simplex_corner(gradient_index(ii, jj, kk), x0, y0, z0);
    let c1 = simplex_corner(
        gradient_index((ii + o.i1) as i32, (jj + o.j1) as i32, (kk + o.k1) as i32),
        fx_add(fx_sub(x0, o.i1 * 4294967296), 715827882),
        fx_add(fx_sub(y0, o.j1 * 4294967296), 715827882),
        fx_add(fx_sub(z0, o.k1 * 4294967296), 715827882),
    );
    let c2 = simplex_corner(
        gradient_index((ii + o.i2) as i32, (jj + o.j2) as i32, (kk + o.k2) as i32),
        fx_add(fx_sub(x0, o.i2 * 4294967296), 1431655765),
        fx_add(fx_sub(y0, o.j2 * 4294967296), 1431655765),
        fx_add(fx_sub(z0, o.k2 * 4294967296), 1431655765),
    );
    let c3 = simplex_corner(
        gradient_index((ii + 1) as i32, (jj + 1) as i32, (kk + 1) as i32),
        fx_add(fx_sub(x0, 4294967296), 2147483648),
        fx_add(fx_sub(y0, 4294967296), 2147483648),
        fx_add(fx_sub(z0, 4294967296), 2147483648),
    );
    let n = fx_add(fx_add(fx_add(c0, c1), c2), c3);
    fx_mul(fx_add(fx_mul(137438953472, n), 4294967296), 2147483648)
}

/// The second corner of a simplex is one grid step from the first, along a
/// largest coordinate of the offset; the third is one step further, and the
/// axis it has not moved along is one of a smallest coordinate.
pub proof fn lemma_simplex_offsets_walk(x0: int, y0: int, z0: int)
    ensures
        ({
            let o = simplex_offsets(x0, y0, z0);
            &&& 0 <= o.i1 <= o.i2 <= 1
            &&& 0 <= o.j1 <= o.j2 <= 1
            &&& 0 <= o.k1 <= o.k2 <= 1
            &&& o.i1 + o.j1 + o.k1 == 1
            &&& o.i2 + o.j2 + o.k2 == 2
            &&& (o.i1 == 1 ==> x0 >= y0 && x0 >= z0)
            &&& (o.j1 == 1 ==> y0 > x0 && y0 >= z0)
            &&& (o.k1 == 1 ==> z0 > x0 && z0 > y0)
            &&& (o.i2 == 0 ==> x0 < y0 && x0 < z0)
            &&& (o.j2 == 0 ==> y0 <= x0 && y0 < z0)
            &&& (o.k2 == 0 ==> z0 <= x0 && z0 <= y0)
        }),
{
}

/// Scrambles a grid coordinate.
pub fn simplex_hash(i: i32) -> (r: i32)
    ensures
        r == scramble(i),
{
    let n = i.wrapping_mul(1619);
    let m = (n >> 13) ^ n;
    m.wrapping_mul(m.wrapping_mul(m).wrapping_mul(60493).wrapping_add(19990303)).wrapping_add(
        1376312589,
    )
}

/// The dot product of `(x, y, z)` with the gradient direction selected by the
/// low four bits of `hash`.
pub fn simplex_grad3(hash: i32, x: Fx, y: Fx, z: Fx) -> (r: Fx)
    ensures
        r@ == gradient_dot(hash, x@, y@, z@),
{
    let h = hash & 15;
    proof {
        assert(hash & 15 == hash % 16) by (bit_vector);
        assert(0 <= h < 16 ==> ((h & 1 == 0) <==> (h % 2 == 0))) by (bit_vector);
        assert(0 <= h < 16 ==> ((h & 2 == 0) <==> ((h / 2) % 2 == 0))) by (bit_vector);
    }
    let u = if h < 8 { x } else { y };
    let v = if h < 4 { y } else if h == 12 || h == 14 { x } else { z };
    let first = if h & 1 == 0 { u } else { u.neg() };
    let second = if h & 2 == 0 { v } else { v.neg() };
    first.add(second)
}

/// Picks the simplex that holds the offset `(x0, y0, z0)`.
pub fn simplex_order(x0: Fx, y0: Fx, z0: Fx) -> (o: SimplexOffsets)
    ensures
        o == simplex_offsets(x0@, y0@, z0@),
{
    if x0.raw >= y0.raw {
        if y0.raw >= z0.raw {
            SimplexOffsets { i1: 1, j1: 0, k1: 0, i2: 1, j2: 1, k2: 0 }
        } else if x0.raw >= z0.raw {
            SimplexOffsets { i1: 1, j1: 0, k1: 0, i2: 1, j2: 0, k2: 1 }
        } else {
            SimplexOffsets { i1: 0, j1: 0, k1: 1, i2: 1, j2: 0, k2: 1 }
        }
    } else {
        if y0.raw < z0.raw {
            SimplexOffsets { i1: 0, j1: 0, k1: 1, i2: 0, j2: 1, k2: 1 }
        } else if x0.raw < z0.raw {
            SimplexOffsets { i1: 0, j1: 1, k1: 0, i2: 0, j2: 1, k2: 1 }
        } else {
            SimplexOffsets { i1: 0, j1: 1, k1: 0, i2: 1, j2: 1, k2: 0 }
        }
    }
}

/// The gradient selector of the grid corner `(i, j, k)`.
fn corner_gradient(i: i32, j: i32, k: i32) -> (r: i32)
    ensures
        r == gradient_index(i, j, k),
{
    simplex_hash(i.wrapping_add(simplex_hash(j.wrapping_add(simplex_hash(k)))))
}

/// The contribution of the corner with gradient selector `gi` at offset
/// `(x, y, z)`.
fn corner_term(gi: i32, x: Fx, y: Fx, z: Fx) -> (r: Fx)
    ensures
        r@ == simplex_corner(gi, x@, y@, z@),
{
    let t = Fx { raw: CORNER_RADIUS_RAW }.sub(x.mul(x)).sub(y.mul(y)).sub(z.mul(z));
    if t.raw > 0 {
        let t2 = t.mul(t);
        t2.mul(t2).mul(simplex_grad3(gi, x, y, z))
    } else {
        Fx { raw: 0 }
    }
}

/// The low eight bits of the lattice coordinate of a scalar.
fn lattice_byte(a: Fx) -> (r: i32)
    ensures
        r == (lattice(a@) % 256) as i32,
        0 <= r < 256,
{
    let l = lattice_of(a);
    assert(l & 255 == l % 256) by (bit_vector);
    l & 255
}

/// One coordinate of the offset from a later corner: `c - step + shift`.
fn corner_offset(c: Fx, step: i32, shift: i64) -> (r: Fx)
    requires
        0 <= step <= 1,
    ensures
        r@ == fx_add(fx_sub(c@, step * 4294967296), shift as int),
{
    c.sub(Fx::from_int(step)).add(Fx { raw: shift })
}

/// Simplex noise at `p`, around `[0, 1]`.
///
/// The result is not clamped: the scale of 32 applied to the corner sum is the
/// customary one and lets the value leave the unit interval by a little.
pub fn simplex_3d(p: Vec3) -> (r: Fx)
    ensures
        r@ == simplex(p@),
{
    let s = p.x.add(p.y).add(p.z).mul(Fx { raw: SKEW_RAW });
    let sx = p.x.add(s);
    let sy = p.y.add(s);
    let sz = p.z.add(s);
    let i = sx.floor();
    let j = sy.floor();
    let k = sz.floor();

    let t = i.add(j).add(k).mul(Fx { raw: UNSKEW_RAW });
    let x0 = p.x.sub(i.sub(t));
    let y0 = p.y.sub(j.sub(t));
    let z0 = p.z.sub(k.sub(t));

    let o = simplex_order(x0, y0, z0);

    let x1 = corner_offset(x0, o.i1, 715827882);
    let y1 = corner_offset(y0, o.j1, 715827882);
    let z1 = corner_offset(z0, o.k1, 715827882);
    let x2 = corner_offset(x0, o.i2, 1431655765);
    let y2 = corner_offset(y0, o.j2, 1431655765);
    let z2 = corner_offset(z0, o.k2, 1431655765);
    let x3 = corner_offset(x0, 1, 2147483648);
    let y3 = corner_offset(y0, 1, 2147483648);
    let z3 = corner_offset(z0, 1, 2147483648);

    let ii = lattice_byte(sx);
    let jj = lattice_byte(sy);
    let kk = lattice_byte(sz);

    let gi0 = corner_gradient(ii, jj, kk);
    let gi1 = corner_gradient(ii + o.i1, jj + o.j1, kk + o.k1);
    let gi2 = corner_gradient(ii + o.i2, jj + o.j2, kk + o.k2);
    let gi3 = corner_gradient(ii + 1, jj + 1, kk + 1);

    let c0 = corner_term(gi0, x0, y0, z0);
    let c1 = corner_term(gi1, x1, y1, z1);
    let c2 = corner_term(gi2, x2, y2, z2);
    let c3 = corner_term(gi3, x3, y3, z3);
    let n = c0.add(c1).add(c2).add(c3);

    Fx::from_int(32).mul(n).add(Fx::one()).mul(Fx { raw: 2147483648 })
}

/// The feature point of the lattice cell with corner `c`, as an offset in
/// `[0, 1)` per axis: the fractional part of the sine of each coordinate
/// times a large constant.
pub open spec fn cell_point(c: V3) -> V3 {
    V3 {
        x: fx_fract(fx_mul(fx_sin(c.x), fx_ratio(437585453, 10000))),
        y: fx_fract(fx_mul(fx_sin(c.y), fx_ratio(225781459, 10000))),
        z: fx_fract(fx_mul(fx_sin(c.z), fx_ratio(196423490, 10000))),
    }
}

/// The corner of the lattice cell that holds `p`.
pub open spec fn cell_corner(p: V3) -> V3 {
    V3 { x: fx_floor(p.x), y: fx_floor(p.y), z: fx_floor(p.z) }
}

/// Distance from `p` to the feature point of the cell `(i, j, k)` steps away
/// from the cell that holds `p`.
pub open spec fn cell_distance(p: V3, i: int, j: int, k: int) -> int {
    let corner = cell_corner(p);
    let step = V3 { x: i * 4294967296, y: j * 4294967296, z: k * 4294967296 };
    v3_length(v3_sub(v3_add(step, cell_point(v3_add(corner, step))), v3_sub(p, corner)))
}

/// The smallest distance from `p` to the feature points of the first `count`
/// cells of its three-by-three-by-three neighbourhood, scanned with the x step
/// slowest; never more than 1000.
pub open spec fn nearest(p: V3, count: nat) -> int
    decreases count,
{
    if count == 0 {
        4294967296000
    } else {
        let c = (count - 1) as int;
        fx_min(nearest(p, (count - 1) as nat), cell_distance(p, c / 9 - 1, (c / 3) % 3 - 1, c % 3 - 1))
    }
}

/// Cellular noise at `p`: one minus the distance to the nearest feature point
/// over 1.5, with the distance cut at 1.5.
pub open spec fn cellular(p: V3) -> int {
    fx_unit(fx_sub(4294967296, fx_div(fx_min(nearest(p, 27), 6442450944), 6442450944)))
}

/// The scanned minimum is no larger than the distance to any feature point
/// of the scanned cells, and is one of those distances unless all exceed 1000.
pub proof fn lemma_nearest_is_least(p: V3, count: nat)
    ensures
        nearest(p, count) <= 4294967296000,
        forall|c: int|
            0 <= c < count ==> nearest(p, count) <= #[trigger] cell_distance(
                p,
                c / 9 - 1,
                (c / 3) % 3 - 1,
                c % 3 - 1,
            ),
        nearest(p, count) == 4294967296000 || exists|c: int|
            0 <= c < count && nearest(p, count) == #[trigger] cell_distance(
                p,
                c / 9 - 1,
                (c / 3) % 3 - 1,
                c % 3 - 1,
            ),
    decreases count,
{
    if count > 0 {
        lemma_nearest_is_least(p, (count - 1) as nat);
        let last = (count - 1) as int;
        let d = cell_distance(p, last / 9 - 1, (last / 3) % 3 - 1, last % 3 - 1);
        let before = nearest(p, (count - 1) as nat);
        if before != 4294967296000 && nearest(p, count) == before {
            let c = choose|c: int|
                0 <= c < count - 1 && before == #[trigger] cell_distance(
                    p,
                    c / 9 - 1,
                    (c / 3) % 3 - 1,
                    c % 3 - 1,
                );
            assert(0 <= c < count);
        } else if nearest(p, count) != 4294967296000 {
            assert(nearest(p, count) == d);
            assert(0 <= last < count);
        }
    }
}

/// The cellular noise is no smaller than what any single neighbouring cell
/// alone would give: a nearer feature point means a higher value.
pub proof fn lemma_cellular_neighbour(p: V3, i: int, j: int, k: int)
    requires
        -1 <= i <= 1,
        -1 <= j <= 1,
        -1 <= k <= 1,
    ensures
        nearest(p, 27) <= cell_distance(p, i, j, k),
        cellular(p) >= fx_unit(
            fx_sub(4294967296, fx_div(fx_min(cell_distance(p, i, j, k), 6442450944), 6442450944)),
        ),
{
    lemma_nearest_is_least(p, 27);
    let c = (i + 1) * 9 + (j + 1) * 3 + (k + 1);
    assert(c / 9 - 1 == i && (c / 3) % 3 - 1 == j && c % 3 - 1 == k);
    let m = fx_min(nearest(p, 27), 6442450944);
    let d = fx_min(cell_distance(p, i, j, k), 6442450944);
    assert(m <= d);
    vstd::arithmetic::div_mod::lemma_div_is_ordered(m * 4294967296, d * 4294967296, 6442450944);
}

/// The feature point of the lattice cell with corner `p`.
pub fn cellular_hash3(p: Vec3) -> (r: Vec3)
    ensures
        r@ == cell_point(p@),
        0 <= r@.x < 4294967296,
        0 <= r@.y < 4294967296,
        0 <= r@.z < 4294967296,
{
    let x = p.x.sin().mul(Fx::ratio(437585453, 10000));
    let y = p.y.sin().mul(Fx::ratio(225781459, 10000));
    let z = p.z.sin().mul(Fx::ratio(196423490, 10000));
    Vec3 { x: x.fract(), y: y.fract(), z: z.fract() }
}

/// Distance from `p` to the feature point of the neighbouring cell `(i, j, k)`.
fn neighbour_distance(p: Vec3, i: i32, j: i32, k: i32) -> (r: Fx)
    ensures
        r@ == cell_distance(p@, i as int, j as int, k as int),
{
    let corner = Vec3 { x: p.x.floor(), y: p.y.floor(), z: p.z.floor() };
    let inside = p.sub(corner);
    let step = Vec3::from_ints(i, j, k);
    let point = cellular_hash3(corner.add(step));
    step.add(point).sub(inside).length()
}

/// Cellular noise at `p`, in `[0, 1]`.
///
/// Every lattice cell holds one feature point. The twenty-seven cells around
/// `p` are scanned for the nearest one; the value is high close to a feature
/// point and falls to zero at a distance of 1.5.
pub fn cellular_3d(p: Vec3) -> (r: Fx)
    ensures
        r@ == cellular(p@),
        0 <= r@ <= 4294967296,
{
    let mut least = Fx::from_int(1000);
    let mut c: i32 = 0;
    while c < 27
        invariant
            0 <= c <= 27,
            least@ == nearest(p@, c as nat),
        decreases 27 - c,
    {
        let d = neighbour_distance(p, c / 9 - 1, (c / 3) % 3 - 1, c % 3 - 1);
        least = least.min(d);
        c = c + 1;
    }
    let reach = Fx { raw: 6442450944 };
    Fx::one().sub(least.min(reach).div(reach)).unit()
}

/// The noise selected by `kind` at `p`.
pub open spec fn noise(p: V3, kind: NoiseType) -> int {
    match kind {
        NoiseType::Perlin => perlin(p),
        NoiseType::Simplex => simplex(p),
        NoiseType::Cellular => cellular(p),
    }
}

/// Evaluates the noise primitive selected by `noise_type` at `p`.
///
/// The value is a function of `p` and `noise_type` alone: two calls with
/// equal arguments return equal scalars.
pub fn noise_3d(p: Vec3, noise_type: NoiseType) -> (r: Fx)
    ensures
        r@ == noise(p@, noise_type),
        noise_type != NoiseType::Simplex ==> 0 <= r@ <= 4294967296,
{
    match noise_type {
        NoiseType::Perlin => perlin_3d(p),
        NoiseType::Simplex => simplex_3d(p),
        NoiseType::Cellular => cellular_3d(p),
    }
}

/// Spatial frequency of octave `k` of a fractal sum: the base `scale` times
/// `lacunarity` to the power `k`, rounded after each product.
pub open spec fn octave_frequency(k: nat, lacunarity: int, scale: int) -> int
    decreases k,
{
    if k == 0 {
        scale
    } else {
        fx_mul(octave_frequency((k - 1) as nat, lacunarity, scale), lacunarity)
    }
}

/// Amplitude of octave `k` of a fractal sum: `gain` to the power `k`, rounded
/// after each product.
pub open spec fn octave_amplitude(k: nat, gain: int) -> int
    decreases k,
{
    if k == 0 {
        4294967296
    } else {
        fx_mul(octave_amplitude((k - 1) as nat, gain), gain)
    }
}

/// Sum of the first `n` octaves, each the noise at `p` times the octave's
/// frequency, weighted by the octave's amplitude.
pub open spec fn octave_sum(
    p: V3,
    n: nat,
    lacunarity: int,
    gain: int,
    scale: int,
    kind: NoiseType,
) -> int
    decreases n,
{
    if n == 0 {
        0
    } else {
        let k = (n - 1) as nat;
        fx_add(
            octave_sum(p, k, lacunarity, gain, scale, kind),
            fx_mul(
                noise(v3_scale(p, octave_frequency(k, lacunarity, scale)), kind),
                octave_amplitude(k, gain),
            ),
        )
    }
}

/// Sum of the amplitudes of the first `n` octaves.
pub open spec fn amplitude_sum(n: nat, gain: int) -> int
    decreases n,
{
    if n == 0 {
        0
    } else {
        fx_add(amplitude_sum((n - 1) as nat, gain), octave_amplitude((n - 1) as nat, gain))
    }
}

/// Fractal sum of `octaves` octaves of noise, divided by the sum of the
/// amplitudes used; zero when there is no octave.
pub open spec fn fbm(
    p: V3,
    octaves: nat,
    lacunarity: int,
    gain: int,
    scale: int,
    kind: NoiseType,
) -> int {
    fx_div(octave_sum(p, octaves, lacunarity, gain, scale, kind), amplitude_sum(octaves, gain))
}

/// Every noise value is a raw scalar.
pub proof fn lemma_noise_is_raw(p: V3, kind: NoiseType)
    ensures
        -0x8000_0000_0000_0000 <= noise(p, kind) <= 0x7fff_ffff_ffff_ffff,
{
    match kind {
        NoiseType::Perlin => {
            lemma_perlin_unit(p);
        },
        NoiseType::Simplex => {},
        NoiseType::Cellular => {},
    }
}

/// The value noise lies in the unit interval.
pub proof fn lemma_perlin_unit(p: V3)
    ensures
        0 <= perlin(p) <= 4294967296,
{
    let ix = lattice(p.x);
    let iy = lattice(p.y);
    let iz = lattice(p.z);
    let jx = ix.wrapping_add(1);
    let jy = iy.wrapping_add(1);
    let jz = iz.wrapping_add(1);
    let u = fade_curve(fx_fract(p.x));
    let v = fade_curve(fx_fract(p.y));
    let w = fade_curve(fx_fract(p.z));
    lemma_blend_unit(lattice_value(ix, iy, iz), lattice_value(jx, iy, iz), u);
    lemma_blend_unit(lattice_value(ix, jy, iz), lattice_value(jx, jy, iz), u);
    lemma_blend_unit(lattice_value(ix, iy, jz), lattice_value(jx, iy, jz), u);
    lemma_blend_unit(lattice_value(ix, jy, jz), lattice_value(jx, jy, jz), u);
    let x00 = blend(lattice_value(ix, iy, iz), lattice_value(jx, iy, iz), u);
    let x10 = blend(lattice_value(ix, jy, iz), lattice_value(jx, jy, iz), u);
    let x01 = blend(lattice_value(ix, iy, jz), lattice_value(jx, iy, jz), u);
    let x11 = blend(lattice_value(ix, jy, jz), lattice_value(jx, jy, jz), u);
    lemma_blend_unit(x00, x10, v);
    lemma_blend_unit(x01, x11, v);
    lemma_blend_unit(blend(x00, x10, v), blend(x01, x11, v), w);
}

/// A fractal sum of a single octave is the noise itself, evaluated at `p`
/// times the base scale, whatever the lacunarity and the gain.
pub proof fn lemma_fbm_single_octave(p: V3, lacunarity: int, gain: int, scale: int, kind: NoiseType)
    ensures
        fbm(p, 1, lacunarity, gain, scale, kind) == noise(v3_scale(p, scale), kind),
{
    let q = v3_scale(p, scale);
    lemma_noise_is_raw(q, kind);
    let n = noise(q, kind);
    assert(octave_frequency(0, lacunarity, scale) == scale);
    assert(octave_amplitude(0, gain) == 4294967296);
    assert(octave_sum(p, 0, lacunarity, gain, scale, kind) == 0);
    assert(amplitude_sum(0, gain) == 0);
    assert(octave_sum(p, 1, lacunarity, gain, scale, kind) == fx_add(0, fx_mul(n, 4294967296)));
    assert(amplitude_sum(1, gain) == 4294967296);
}

/// Every noise but the simplex noise lies in the unit interval.
pub proof fn lemma_noise_unit(p: V3, kind: NoiseType)
    requires
        kind != NoiseType::Simplex,
    ensures
        0 <= noise(p, kind) <= 4294967296,
{
    if kind == NoiseType::Perlin {
        lemma_perlin_unit(p);
    }
}

/// With a gain that is not negative, no amplitude is negative.
pub proof fn lemma_amplitude_sign(k: nat, gain: int)
    requires
        gain >= 0,
    ensures
        octave_amplitude(k, gain) >= 0,
    decreases k,
{
    if k > 0 {
        lemma_amplitude_sign((k - 1) as nat, gain);
        let a = octave_amplitude((k - 1) as nat, gain);
        assert(a * gain >= 0) by (nonlinear_arith)
            requires
                a >= 0,
                gain >= 0,
        ;
    }
}

/// With a gain that is not negative and a noise of the unit interval, the
/// sum of the octaves lies between zero and the sum of the amplitudes.
pub proof fn lemma_octave_sum_bounded(
    p: V3,
    n: nat,
    lacunarity: int,
    gain: int,
    scale: int,
    kind: NoiseType,
)
    requires
        gain >= 0,
        kind != NoiseType::Simplex,
    ensures
        0 <= octave_sum(p, n, lacunarity, gain, scale, kind) <= amplitude_sum(n, gain),
    decreases n,
{
    if n > 0 {
        let k = (n - 1) as nat;
        lemma_octave_sum_bounded(p, k, lacunarity, gain, scale, kind);
        lemma_amplitude_sign(k, gain);
        let v = noise(v3_scale(p, octave_frequency(k, lacunarity, scale)), kind);
        lemma_noise_unit(v3_scale(p, octave_frequency(k, lacunarity, scale)), kind);
        let a = octave_amplitude(k, gain);
        assert(0 <= v * a <= 4294967296 * a) by (nonlinear_arith)
            requires
                0 <= v <= 4294967296,
                a >= 0,
        ;
    }
}

/// The fractal sum is normalized: with a gain that is not negative, the
/// fractal sum of a noise of the unit interval lies in the unit interval.
pub proof fn lemma_fbm_unit(
    p: V3,
    octaves: nat,
    lacunarity: int,
    gain: int,
    scale: int,
    kind: NoiseType,
)
    requires
        gain >= 0,
        kind != NoiseType::Simplex,
    ensures
        0 <= fbm(p, octaves, lacunarity, gain, scale, kind) <= 4294967296,
{
    lemma_octave_sum_bounded(p, octaves, lacunarity, gain, scale, kind);
    let total = octave_sum(p, octaves, lacunarity, gain, scale, kind);
    let norm = amplitude_sum(octaves, gain);
    lemma_quotient_unit(total, norm);
}

/// A quotient of a non-negative scalar by one that is no smaller lies in the
/// unit interval.
pub proof fn lemma_quotient_unit(a: int, b: int)
    requires
        0 <= a <= b,
    ensures
        0 <= fx_div(a, b) <= 4294967296,
{
    if b > 0 {
        assert(0 <= (a * 4294967296) / b <= 4294967296) by (nonlinear_arith)
            requires
                0 <= a <= b,
                b > 0,
        ;
    }
}

/// Fractal sum of noise: `octaves` evaluations of the selected noise at `p`
/// times a frequency that starts at `scale` and is multiplied by `lacunarity`
/// from one octave to the next, each weighted by an amplitude that starts at
/// one and is multiplied by `gain`; the sum is divided by the sum of the
/// amplitudes. Without octaves the result is zero.
pub fn fbm_3d(
    p: Vec3,
    octaves: u32,
    lacunarity: Fx,
    gain: Fx,
    scale: Fx,
    noise_type: NoiseType,
) -> (r: Fx)
    ensures
        r@ == fbm(p@, octaves as nat, lacunarity@, gain@, scale@, noise_type),
        octaves == 1 ==> r@ == noise(v3_scale(p@, scale@), noise_type),
        gain@ >= 0 && noise_type != NoiseType::Simplex ==> 0 <= r@ <= 4294967296,
{
    proof {
        if gain@ >= 0 && noise_type != NoiseType::Simplex {
            lemma_fbm_unit(p@, octaves as nat, lacunarity@, gain@, scale@, noise_type);
        }
    }
    let mut freq = scale;
    let mut amp = Fx::one();
    let mut sum = Fx::zero();
    let mut max_val = Fx::zero();
    let mut k: u32 = 0;
    while k < octaves
        invariant
            k <= octaves,
            freq@ == octave_frequency(k as nat, lacunarity@, scale@),
            amp@ == octave_amplitude(k as nat, gain@),
            sum@ == octave_sum(p@, k as nat, lacunarity@, gain@, scale@, noise_type),
            max_val@ == amplitude_sum(k as nat, gain@),
        decreases octaves - k,
    {
        sum = sum.add(noise_3d(p.scale(freq), noise_type).mul(amp));
        max_val = max_val.add(amp);
        freq = freq.mul(lacunarity);
        amp = amp.mul(gain);
        k = k + 1;
    }
    proof {
        lemma_fbm_single_octave(p@, lacunarity@, gain@, scale@, noise_type);
    }
    sum.div(max_val)
}

} // verus!
