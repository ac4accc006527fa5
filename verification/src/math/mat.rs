//! Four-by-four matrices and the transforms of the viewing pipeline.

use vstd::prelude::*;
use crate::elementary::{fx_cos, fx_sin, lemma_trig_at_zero};
use crate::fixed::{fx_add, fx_div, fx_mul, fx_neg, fx_sub, Fx};
use crate::math::vec::{
    v3_cross, v3_dot, v3_normalize, v3_sub, v4_dot, Vec3, Vec4, V3, V4,
};

verus! {

/// Mathematical model of a matrix: its four rows.
pub struct M4 {
    pub r0: V4,
    pub r1: V4,
    pub r2: V4,
    pub r3: V4,
}

/// The identity matrix.
pub open spec fn m4_identity() -> M4 {
    M4 {
        r0: V4 { x: 4294967296, y: 0, z: 0, w: 0 },
        r1: V4 { x: 0, y: 4294967296, z: 0, w: 0 },
        r2: V4 { x: 0, y: 0, z: 4294967296, w: 0 },
        r3: V4 { x: 0, y: 0, z: 0, w: 4294967296 },
    }
}

/// The matrix with rows and columns exchanged.
pub open spec fn m4_transpose(m: M4) -> M4 {
    M4 {
        r0: V4 { x: m.r0.x, y: m.r1.x, z: m.r2.x, w: m.r3.x },
        r1: V4 { x: m.r0.y, y: m.r1.y, z: m.r2.y, w: m.r3.y },
        r2: V4 { x: m.r0.z, y: m.r1.z, z: m.r2.z, w: m.r3.z },
        r3: V4 { x: m.r0.w, y: m.r1.w, z: m.r2.w, w: m.r3.w },
    }
}

/// The matrix applied to a column vector: one dot product per row.
pub open spec fn m4_mul_vec(m: M4, v: V4) -> V4 {
    V4 { x: v4_dot(m.r0, v), y: v4_dot(m.r1, v), z: v4_dot(m.r2, v), w: v4_dot(m.r3, v) }
}

/// The matrix product `a * b`: entry `(i, j)` is the dot product of row `i` of
/// `a` with column `j` of `b`.
pub open spec fn m4_mul(a: M4, b: M4) -> M4 {
    let t = m4_transpose(b);
    M4 {
        r0: m4_mul_vec(t, a.r0),
        r1: m4_mul_vec(t, a.r1),
        r2: m4_mul_vec(t, a.r2),
        r3: m4_mul_vec(t, a.r3),
    }
}

/// Rotation about the y axis by a raw angle in radians.
pub open spec fn m4_rotation_y(angle: int) -> M4 {
    let c = fx_cos(angle);
    let s = fx_sin(angle);
    M4 {
        r0: V4 { x: c, y: 0, z: s, w: 0 },
        r1: V4 { x: 0, y: 4294967296, z: 0, w: 0 },
        r2: V4 { x: fx_neg(s), y: 0, z: c, w: 0 },
        r3: V4 { x: 0, y: 0, z: 0, w: 4294967296 },
    }
}

/// Scaling by one factor per axis.
pub open spec fn m4_scale(s: V3) -> M4 {
    M4 {
        r0: V4 { x: s.x, y: 0, z: 0, w: 0 },
        r1: V4 { x: 0, y: s.y, z: 0, w: 0 },
        r2: V4 { x: 0, y: 0, z: s.z, w: 0 },
        r3: V4 { x: 0, y: 0, z: 0, w: 4294967296 },
    }
}

/// Right-handed view matrix of a camera at `eye` that looks at `center`.
///
/// The camera looks down its negative z axis: with `f` the unit vector from
/// `eye` to `center`, `s` the unit vector along `f x up` and `u = s x f`, the
/// rows are `s`, `u` and `-f`, each followed by the offset that moves `eye`
/// to the origin.
pub open spec fn m4_look_at_rh(eye: V3, center: V3, up: V3) -> M4 {
    let f = v3_normalize(v3_sub(center, eye));
    let s = v3_normalize(v3_cross(f, up));
    let u = v3_cross(s, f);
    M4 {
        r0: V4 { x: s.x, y: s.y, z: s.z, w: fx_neg(v3_dot(s, eye)) },
        r1: V4 { x: u.x, y: u.y, z: u.z, w: fx_neg(v3_dot(u, eye)) },
        r2: V4 { x: fx_neg(f.x), y: fx_neg(f.y), z: fx_neg(f.z), w: v3_dot(f, eye) },
        r3: V4 { x: 0, y: 0, z: 0, w: 4294967296 },
    }
}

/// Cotangent of half the raw vertical field of view.
pub open spec fn focal(fovy: int) -> int {
    let half = fovy / 2;
    fx_div(fx_cos(half), fx_sin(half))
}

/// Right-handed perspective projection onto clip space, with depth mapped so
/// that the near plane lands on `-w` and the far plane on `+w`.
pub open spec fn m4_perspective_rh(fovy: int, aspect: int, near: int, far: int) -> M4 {
    let f = focal(fovy);
    let span = fx_sub(near, far);
    M4 {
        r0: V4 { x: fx_div(f, aspect), y: 0, z: 0, w: 0 },
        r1: V4 { x: 0, y: f, z: 0, w: 0 },
        r2: V4 {
            x: 0,
            y: 0,
            z: fx_div(fx_add(far, near), span),
            w: fx_div(fx_mul(fx_mul(8589934592, far), near), span),
        },
        r3: V4 { x: 0, y: 0, z: -4294967296, w: 0 },
    }
}

/// Map from normalized device coordinates to pixel space.
///
/// `x` in `[-1, 1]` goes to `[left, left + width]`; `y` in `[-1, 1]` goes to
/// `[top + height, top]`, so that up in device space is a smaller row number;
/// `z` in `[-1, 1]` goes to `[0, depth]`.
pub open spec fn m4_viewport(left: int, top: int, width: int, height: int, depth: int) -> M4 {
    let hw = width / 2;
    let hh = height / 2;
    let hd = depth / 2;
    M4 {
        r0: V4 { x: hw, y: 0, z: 0, w: fx_add(left, hw) },
        r1: V4 { x: 0, y: fx_neg(hh), z: 0, w: fx_add(top, hh) },
        r2: V4 { x: 0, y: 0, z: hd, w: hd },
        r3: V4 { x: 0, y: 0, z: 0, w: 4294967296 },
    }
}

/// A four-by-four matrix, stored by rows.
#[derive(Clone, Copy, Debug, PartialEq, Eq, Structural)]
pub struct Mat4 {
    pub r0: Vec4,
    pub r1: Vec4,
    pub r2: Vec4,
    pub r3: Vec4,
}

impl View for Mat4 {
    type V = M4;

    open spec fn view(&self) -> M4 {
        M4 { r0: self.r0@, r1: self.r1@, r2: self.r2@, r3: self.r3@ }
    }
}

/// The vector of four raw components.
fn row(x: Fx, y: Fx, z: Fx, w: Fx) -> (r: Vec4)
    ensures
        r@ == (V4 { x: x@, y: y@, z: z@, w: w@ }),
{
    Vec4 { x, y, z, w }
}

impl Mat4 {
    /// The identity matrix.
    pub fn identity() -> (r: Mat4)
        ensures
            r@ == m4_identity(),
    {
        let o = Fx::zero();
        let i = Fx::one();
        Mat4 { r0: row(i, o, o, o), r1: row(o, i, o, o), r2: row(o, o, i, o), r3: row(o, o, o, i) }
    }

    /// The matrix with rows and columns exchanged.
    pub fn transpose(self) -> (r: Mat4)
        ensures
            r@ == m4_transpose(self@),
    {
        Mat4 {
            r0: row(self.r0.x, self.r1.x, self.r2.x, self.r3.x),
            r1: row(self.r0.y, self.r1.y, self.r2.y, self.r3.y),
            r2: row(self.r0.z, self.r1.z, self.r2.z, self.r3.z),
            r3: row(self.r0.w, self.r1.w, self.r2.w, self.r3.w),
        }
    }

    /// The matrix applied to the column vector `v`.
    pub fn mul_vec(self, v: Vec4) -> (r: Vec4)
        ensures
            r@ == m4_mul_vec(self@, v@),
    {
        row(self.r0.dot(v), self.r1.dot(v), self.r2.dot(v), self.r3.dot(v))
    }

    /// The matrix product `self * other`.
    pub fn mul(self, other: Mat4) -> (r: Mat4)
        ensures
            r@ == m4_mul(self@, other@),
    {
        let t = other.transpose();
        Mat4 {
            r0: t.mul_vec(self.r0),
            r1: t.mul_vec(self.r1),
            r2: t.mul_vec(self.r2),
            r3: t.mul_vec(self.r3),
        }
    }
}

/// Rotation about the y axis by `angle` radians.
pub fn rotation_y(angle: Fx) -> (r: Mat4)
    ensures
        r@ == m4_rotation_y(angle@),
{
    let c = angle.cos();
    let s = angle.sin();
    let o = Fx::zero();
    let i = Fx::one();
    Mat4 { r0: row(c, o, s, o), r1: row(o, i, o, o), r2: row(s.neg(), o, c, o), r3: row(o, o, o, i) }
}

/// Scaling by one factor per axis.
pub fn scale(s: Vec3) -> (r: Mat4)
    ensures
        r@ == m4_scale(s@),
{
    let o = Fx::zero();
    let i = Fx::one();
    Mat4 { r0: row(s.x, o, o, o), r1: row(o, s.y, o, o), r2: row(o, o, s.z, o), r3: row(o, o, o, i) }
}

/// Right-handed view matrix of a camera at `eye` that looks at `center`, with
/// `up` fixing the roll.
pub fn look_at_rh(eye: Vec3, center: Vec3, up: Vec3) -> (r: Mat4)
    ensures
        r@ == m4_look_at_rh(eye@, center@, up@),
{
    let f = center.sub(eye).normalize();
    let s = f.cross(up).normalize();
    let u = s.cross(f);
    Mat4 {
        r0: row(s.x, s.y, s.z, s.dot(eye).neg()),
        r1: row(u.x, u.y, u.z, u.dot(eye).neg()),
        r2: row(f.x.neg(), f.y.neg(), f.z.neg(), f.dot(eye)),
        r3: row(Fx::zero(), Fx::zero(), Fx::zero(), Fx::one()),
    }
}

/// Right-handed perspective projection with vertical field of view `fovy`
/// (radians), width-to-height ratio `aspect`, and clip planes `near` and `far`.
pub fn perspective_rh(fovy: Fx, aspect: Fx, near: Fx, far: Fx) -> (r: Mat4)
    ensures
        r@ == m4_perspective_rh(fovy@, aspect@, near@, far@),
{
    let half = fovy.half();
    let f = half.cos().div(half.sin());
    let span = near.sub(far);
    let o = Fx::zero();
    Mat4 {
        r0: row(f.div(aspect), o, o, o),
        r1: row(o, f, o, o),
        r2: row(o, o, far.add(near).div(span), Fx { raw: 8589934592 }.mul(far).mul(near).div(span)),
        r3: row(o, o, Fx { raw: -4294967296 }, o),
    }
}

/// Map from normalized device coordinates to the pixel rectangle with corner
/// `(left, top)` and the given size, and from device depth to `[0, depth]`.
pub fn viewport(left: Fx, top: Fx, width: Fx, height: Fx, depth: Fx) -> (r: Mat4)
    ensures
        r@ == m4_viewport(left@, top@, width@, height@, depth@),
{
    let hw = width.half();
    let hh = height.half();
    let hd = depth.half();
    let o = Fx::zero();
    Mat4 {
        r0: row(hw, o, o, left.add(hw)),
        r1: row(o, hh.neg(), o, top.add(hh)),
        r2: row(o, o, hd, hd),
        r3: row(o, o, o, Fx::one()),
    }
}

/// The viewport takes the upper left corner of device space, at the near
/// end of depth, to the upper left corner of the pixel rectangle at depth
/// zero, and the lower right corner at the far end to the lower right corner
/// at the full depth: up in device space is the top row.
pub proof fn lemma_viewport_corners(left: int, top: int, width: int, height: int, depth: int)
    requires
        -0x2000_0000_0000_0000 <= left <= 0x2000_0000_0000_0000,
        -0x2000_0000_0000_0000 <= top <= 0x2000_0000_0000_0000,
        0 <= width <= 0x2000_0000_0000_0000,
        0 <= height <= 0x2000_0000_0000_0000,
        0 <= depth <= 0x2000_0000_0000_0000,
        width % 2 == 0,
        height % 2 == 0,
        depth % 2 == 0,
    ensures
        m4_mul_vec(
            m4_viewport(left, top, width, height, depth),
            V4 { x: -4294967296, y: 4294967296, z: -4294967296, w: 4294967296 },
        ) == (V4 { x: left, y: top, z: 0, w: 4294967296 }),
        m4_mul_vec(
            m4_viewport(left, top, width, height, depth),
            V4 { x: 4294967296, y: -4294967296, z: 4294967296, w: 4294967296 },
        ) == (V4 { x: left + width, y: top + height, z: depth, w: 4294967296 }),
{
}

/// In clip space, `w` is the distance of a point in front of the eye: the
/// projection takes a point at `z` in view space to `w = -z`.
pub proof fn lemma_perspective_w(fovy: int, aspect: int, near: int, far: int, v: V4)
    requires
        -0x2000_0000_0000_0000 <= v.z <= 0x2000_0000_0000_0000,
    ensures
        m4_mul_vec(m4_perspective_rh(fovy, aspect, near, far), v).w == -v.z,
{
    assert(0 * v.x == 0 && 0 * v.y == 0 && 0 * v.w == 0);
}

/// A rotation by the angle zero is the identity.
pub proof fn lemma_rotation_zero()
    ensures
        m4_rotation_y(0) == m4_identity(),
{
    lemma_trig_at_zero();
}

/// The identity matrix leaves every vector unchanged.
pub proof fn lemma_identity_mul_vec(v: V4)
    requires
        -0x8000_0000_0000_0000 <= v.x <= 0x7fff_ffff_ffff_ffff,
        -0x8000_0000_0000_0000 <= v.y <= 0x7fff_ffff_ffff_ffff,
        -0x8000_0000_0000_0000 <= v.z <= 0x7fff_ffff_ffff_ffff,
        -0x8000_0000_0000_0000 <= v.w <= 0x7fff_ffff_ffff_ffff,
    ensures
        m4_mul_vec(m4_identity(), v) == v,
{
}

} // verus!
