//! Triangle rasterization: coverage, interpolation and the depth test.
//!
//! The corners of a triangle are snapped down to a grid of 256 steps per
//! pixel, and a pixel is sampled at its whole-numbered coordinates. A pixel
//! belongs to a triangle when none of its three edge functions is negative,
//! so pixels on an edge or a corner belong to it too. A triangle is drawn
//! whenever it is a front face of non-zero area, wherever its corners lie.
//! Where two triangles share an edge, both offer a fragment to the pixels on
//! it; the depth test then keeps the first one drawn unless the second is
//! strictly nearer.

use vstd::prelude::*;
use crate::fixed::{
    floor_div, floor_div_i128, fx_add, fx_clamp, fx_div, fx_mul, sat, saturate_i128, Fx,
};
use crate::math::vec::{v3_add, v3_scale, Vec2, Vec3, V2, V3};
use crate::renderer::buffers::{
    frame_with_fragment, lemma_pixel_index, FrameModel, Framebuffer,
};
use crate::renderer::pipeline::Shader;
use crate::renderer::uniforms::Uniforms;

verus! {

/// The attributes a fragment is shaded with, interpolated from the outputs
/// of the vertex stage at the corners of its triangle.
#[derive(Clone, Copy, Debug, PartialEq, Eq, Structural)]
pub struct Varyings {
    /// Position in world space.
    pub pos_ws: Vec3,
    /// Normal in world space.
    pub nrm_ws: Vec3,
    /// Surface coordinates.
    pub uv: Vec2,
}

/// Mathematical model of the attributes of a fragment.
pub struct VaryingsModel {
    pub pos_ws: V3,
    pub nrm_ws: V3,
    pub uv: V2,
}

impl View for Varyings {
    type V = VaryingsModel;

    open spec fn view(&self) -> VaryingsModel {
        VaryingsModel { pos_ws: self.pos_ws@, nrm_ws: self.nrm_ws@, uv: self.uv@ }
    }
}

/// A corner of a triangle in screen space.
#[derive(Clone, Copy, Debug, PartialEq, Eq, Structural)]
pub struct ScreenVertex {
    /// Column, in pixels from the left edge.
    pub x: Fx,
    /// Row, in pixels from the top edge.
    pub y: Fx,
    /// Depth; smaller is nearer.
    pub z: Fx,
    /// Reciprocal of the clip-space `w` of the corner.
    pub inv_w: Fx,
    /// What the vertex stage handed on for this corner.
    pub vary: Varyings,
}

/// Mathematical model of a corner in screen space.
pub struct ScreenVertexModel {
    pub x: int,
    pub y: int,
    pub z: int,
    pub inv_w: int,
    pub vary: VaryingsModel,
}

impl View for ScreenVertex {
    type V = ScreenVertexModel;

    open spec fn view(&self) -> ScreenVertexModel {
        ScreenVertexModel {
            x: self.x@,
            y: self.y@,
            z: self.z@,
            inv_w: self.inv_w@,
            vary: self.vary@,
        }
    }
}

/// A triangle in screen space.
#[derive(Clone, Copy, Debug, PartialEq, Eq, Structural)]
pub struct ScreenTriangle {
    pub a: ScreenVertex,
    pub b: ScreenVertex,
    pub c: ScreenVertex,
}

/// Mathematical model of a triangle in screen space.
pub struct ScreenTriangleModel {
    pub a: ScreenVertexModel,
    pub b: ScreenVertexModel,
    pub c: ScreenVertexModel,
}

impl View for ScreenTriangle {
    type V = ScreenTriangleModel;

    open spec fn view(&self) -> ScreenTriangleModel {
        ScreenTriangleModel { a: self.a@, b: self.b@, c: self.c@ }
    }
}

/// Raw width of one step of the grid that corners are snapped to: a 256th of
/// a pixel.
pub const GRID_STEP_RAW: i64 = 16777216;

/// Largest raw depth of a corner, in absolute value, that enters the
/// interpolation as it is: 2048. Depths beyond it count as this.
pub const DEPTH_LIMIT_RAW: i64 = 0x800_0000_0000;

/// The column of a corner on the grid: its raw coordinate in grid steps,
/// rounded down.
pub open spec fn gx(v: ScreenVertexModel) -> int {
    v.x / 16777216
}

/// The row of a corner on the grid.
pub open spec fn gy(v: ScreenVertexModel) -> int {
    v.y / 16777216
}

/// The depth of a corner as it enters the interpolation.
pub open spec fn gz(v: ScreenVertexModel) -> int {
    fx_clamp(v.z, -0x800_0000_0000, 0x800_0000_0000)
}

/// The edge function of the directed edge from `(ax, ay)` to `(bx, by)` at the
/// point `(px, py)`: twice the signed area of the triangle they form.
pub open spec fn edge(ax: int, ay: int, bx: int, by: int, px: int, py: int) -> int {
    (bx - ax) * (py - ay) - (by - ay) * (px - ax)
}

/// Twice the signed area of a triangle; positive for a front face.
pub open spec fn area2(t: ScreenTriangleModel) -> int {
    edge(gx(t.a), gy(t.a), gx(t.b), gy(t.b), gx(t.c), gy(t.c))
}

/// Whether a triangle is drawn at all: it is a front face of non-zero area.
pub open spec fn drawable(t: ScreenTriangleModel) -> bool {
    area2(t) > 0
}

/// The weight of corner `a` at the pixel `(px, py)`, before division by the
/// area: the edge function of the opposite edge.
pub open spec fn weight_a(t: ScreenTriangleModel, px: int, py: int) -> int {
    edge(gx(t.b), gy(t.b), gx(t.c), gy(t.c), px * 256, py * 256)
}

/// The weight of corner `b` at the pixel `(px, py)`.
pub open spec fn weight_b(t: ScreenTriangleModel, px: int, py: int) -> int {
    edge(gx(t.c), gy(t.c), gx(t.a), gy(t.a), px * 256, py * 256)
}

/// The weight of corner `c` at the pixel `(px, py)`.
pub open spec fn weight_c(t: ScreenTriangleModel, px: int, py: int) -> int {
    edge(gx(t.a), gy(t.a), gx(t.b), gy(t.b), px * 256, py * 256)
}

/// Whether the pixel `(px, py)` belongs to a drawable triangle: none of its
/// three weights is negative.
pub open spec fn covers(t: ScreenTriangleModel, px: int, py: int) -> bool {
    &&& drawable(t)
    &&& weight_a(t, px, py) >= 0
    &&& weight_b(t, px, py) >= 0
    &&& weight_c(t, px, py) >= 0
}

/// The depth of a triangle at a pixel: the depths of the corners, weighted
/// by the pixel's weights, rounded down.
pub open spec fn depth_at(t: ScreenTriangleModel, px: int, py: int) -> int {
    sat(
        floor_div(
            weight_a(t, px, py) * gz(t.a) + weight_b(t, px, py) * gz(t.b) + weight_c(t, px, py)
                * gz(t.c),
            area2(t),
        ),
    )
}

/// The three perspective-correct weights of a pixel.
pub struct Blend {
    pub a: int,
    pub b: int,
    pub c: int,
}

/// The perspective-correct weights of a pixel: each screen-space weight is
/// multiplied by the reciprocal `w` of its corner, and the three are divided
/// by their sum. Where the sum is zero the screen-space weights are used.
pub open spec fn blend_at(t: ScreenTriangleModel, px: int, py: int) -> Blend {
    let la = sat(floor_div(weight_a(t, px, py) * 4294967296, area2(t)));
    let lb = sat(floor_div(weight_b(t, px, py) * 4294967296, area2(t)));
    let lc = sat(floor_div(weight_c(t, px, py) * 4294967296, area2(t)));
    let qa = fx_mul(la, t.a.inv_w);
    let qb = fx_mul(lb, t.b.inv_w);
    let qc = fx_mul(lc, t.c.inv_w);
    let sum = fx_add(fx_add(qa, qb), qc);
    if sum == 0 {
        Blend { a: la, b: lb, c: lc }
    } else {
        Blend { a: fx_div(qa, sum), b: fx_div(qb, sum), c: fx_div(qc, sum) }
    }
}

/// Three vectors blended with the given weights.
pub open spec fn mix3(w: Blend, a: V3, b: V3, c: V3) -> V3 {
    v3_add(v3_add(v3_scale(a, w.a), v3_scale(b, w.b)), v3_scale(c, w.c))
}

/// Three scalars blended with the given weights.
pub open spec fn mix1(w: Blend, a: int, b: int, c: int) -> int {
    fx_add(fx_add(fx_mul(a, w.a), fx_mul(b, w.b)), fx_mul(c, w.c))
}

/// The attributes of the fragment of a triangle at a pixel.
pub open spec fn varyings_at(t: ScreenTriangleModel, px: int, py: int) -> VaryingsModel {
    let w = blend_at(t, px, py);
    VaryingsModel {
        pos_ws: mix3(w, t.a.vary.pos_ws, t.b.vary.pos_ws, t.c.vary.pos_ws),
        nrm_ws: mix3(w, t.a.vary.nrm_ws, t.b.vary.nrm_ws, t.c.vary.nrm_ws),
        uv: V2 {
            x: mix1(w, t.a.vary.uv.x, t.b.vary.uv.x, t.c.vary.uv.x),
            y: mix1(w, t.a.vary.uv.y, t.b.vary.uv.y, t.c.vary.uv.y),
        },
    }
}

/// Whether drawing the triangle changes the pixel with index `i` of the
/// frame: the pixel belongs to the triangle and the triangle is strictly
/// nearer there than what the frame holds.
pub open spec fn wins(f: FrameModel, t: ScreenTriangleModel, i: int) -> bool {
    &&& f.width > 0
    &&& 0 <= i < f.width * f.height
    &&& covers(t, i % (f.width as int), i / (f.width as int))
    &&& depth_at(t, i % (f.width as int), i / (f.width as int)) < f.depth[i]
}

/// The frame after a triangle has been drawn on it with the given style.
///
/// Every pixel the triangle wins takes the colour of the triangle's fragment
/// there and its depth; every other pixel stays as it is.
pub open spec fn frame_after_triangle<S: Shader>(
    f: FrameModel,
    t: ScreenTriangleModel,
    shader: S,
    u: Uniforms,
) -> FrameModel {
    FrameModel {
        width: f.width,
        height: f.height,
        color: Seq::new(
            f.color.len(),
            |i: int|
                if wins(f, t, i) {
                    shader.fragment_color(
                        varyings_at(t, i % (f.width as int), i / (f.width as int)),
                        u,
                    )
                } else {
                    f.color[i]
                },
        ),
        depth: Seq::new(
            f.depth.len(),
            |i: int|
                if wins(f, t, i) {
                    depth_at(t, i % (f.width as int), i / (f.width as int))
                } else {
                    f.depth[i]
                },
        ),
    }
}

/// Drawing the same triangle a second time changes nothing: at every pixel it
/// covers, its depth is no longer strictly less than the depth in the frame.
pub proof fn lemma_second_draw_changes_nothing<S: Shader>(
    f: FrameModel,
    t: ScreenTriangleModel,
    shader: S,
    u: Uniforms,
)
    requires
        f.color.len() == f.width * f.height,
        f.depth.len() == f.width * f.height,
    ensures
        frame_after_triangle(frame_after_triangle(f, t, shader, u), t, shader, u)
            == frame_after_triangle(f, t, shader, u),
{
    let once = frame_after_triangle(f, t, shader, u);
    let twice = frame_after_triangle(once, t, shader, u);
    assert forall|i: int| 0 <= i < once.depth.len() implies !wins(once, t, i) by {
        if wins(f, t, i) {
            assert(once.depth[i] == depth_at(t, i % (f.width as int), i / (f.width as int)));
        } else {
            assert(once.depth[i] == f.depth[i]);
        }
    }
    assert(twice.color =~= once.color);
    assert(twice.depth =~= once.depth);
}

/// Expansion of a product of two differences.
pub proof fn lemma_expand(a: int, b: int, c: int, d: int)
    ensures
        (a - b) * (c - d) == a * c - a * d - b * c + b * d,
{
    assert((a - b) * (c - d) == a * c - a * d - b * c + b * d) by (nonlinear_arith);
}

/// The three edge functions of a point add up to twice the area.
pub proof fn lemma_weights_sum(
    ax: int,
    ay: int,
    bx: int,
    by: int,
    cx: int,
    cy: int,
    px: int,
    py: int,
)
    ensures
        edge(bx, by, cx, cy, px, py) + edge(cx, cy, ax, ay, px, py) + edge(ax, ay, bx, by, px, py)
            == edge(ax, ay, bx, by, cx, cy),
{
    lemma_expand(cx, bx, py, by);
    lemma_expand(cy, by, px, bx);
    lemma_expand(ax, cx, py, cy);
    lemma_expand(ay, cy, px, cx);
    lemma_expand(bx, ax, py, ay);
    lemma_expand(by, ay, px, ax);
    lemma_expand(bx, ax, cy, ay);
    lemma_expand(by, ay, cx, ax);
}

/// An edge function is the cross product of the two end points as seen from
/// the point it is evaluated at.
pub proof fn lemma_edge_as_cross(bx: int, by: int, cx: int, cy: int, px: int, py: int)
    ensures
        edge(bx, by, cx, cy, px, py) == (bx - px) * (cy - py) - (cx - px) * (by - py),
{
    lemma_expand(cx, bx, py, by);
    lemma_expand(cy, by, px, bx);
    lemma_expand(bx, px, cy, py);
    lemma_expand(cx, px, by, py);
}

/// For three plane vectors, the cross products of the pairs, each times the
/// first coordinate of the third, cancel.
pub proof fn lemma_cross_cancel(u: int, v: int, p: int, q: int, r: int, s: int)
    ensures
        (p * s - r * q) * u + (r * v - u * s) * p + (u * q - p * v) * r == 0,
{
    assert((p * s - r * q) * u + (r * v - u * s) * p + (u * q - p * v) * r == 0)
        by (nonlinear_arith);
}

/// A non-negative weight times a positive offset is non-negative, and is zero
/// only where the weight is.
pub proof fn lemma_weighted_offset(w: int, d: int)
    requires
        w >= 0,
        d > 0,
    ensures
        w * d >= 0,
        w * d == 0 ==> w == 0,
        w * (-d) <= 0,
        w * (-d) == 0 ==> w == 0,
{
    assert(w * d >= w && w * (-d) <= -w) by (nonlinear_arith)
        requires
            w >= 0,
            d > 0,
    ;
}

/// A point none of whose weights is negative, in a triangle of positive
/// area, has a first coordinate between the least and the greatest first
/// coordinate of the corners.
pub proof fn lemma_inside_between(
    ax: int,
    ay: int,
    bx: int,
    by: int,
    cx: int,
    cy: int,
    px: int,
    py: int,
)
    requires
        edge(bx, by, cx, cy, px, py) >= 0,
        edge(cx, cy, ax, ay, px, py) >= 0,
        edge(ax, ay, bx, by, px, py) >= 0,
        edge(ax, ay, bx, by, cx, cy) > 0,
    ensures
        ax <= px || bx <= px || cx <= px,
        ax >= px || bx >= px || cx >= px,
{
    let wa = edge(bx, by, cx, cy, px, py);
    let wb = edge(cx, cy, ax, ay, px, py);
    let wc = edge(ax, ay, bx, by, px, py);
    lemma_weights_sum(ax, ay, bx, by, cx, cy, px, py);
    lemma_edge_as_cross(bx, by, cx, cy, px, py);
    lemma_edge_as_cross(cx, cy, ax, ay, px, py);
    lemma_edge_as_cross(ax, ay, bx, by, px, py);
    lemma_cross_cancel(ax - px, ay - py, bx - px, by - py, cx - px, cy - py);
    assert(wa * (ax - px) + wb * (bx - px) + wc * (cx - px) == 0);
    if ax > px && bx > px && cx > px {
        lemma_weighted_offset(wa, ax - px);
        lemma_weighted_offset(wb, bx - px);
        lemma_weighted_offset(wc, cx - px);
    }
    if ax < px && bx < px && cx < px {
        lemma_weighted_offset(wa, px - ax);
        lemma_weighted_offset(wb, px - bx);
        lemma_weighted_offset(wc, px - cx);
        assert(wa * (-(px - ax)) == wa * (ax - px));
        assert(wb * (-(px - bx)) == wb * (bx - px));
        assert(wc * (-(px - cx)) == wc * (cx - px));
    }
}

/// The same for the second coordinate.
pub proof fn lemma_inside_between_rows(
    ax: int,
    ay: int,
    bx: int,
    by: int,
    cx: int,
    cy: int,
    px: int,
    py: int,
)
    requires
        edge(bx, by, cx, cy, px, py) >= 0,
        edge(cx, cy, ax, ay, px, py) >= 0,
        edge(ax, ay, bx, by, px, py) >= 0,
        edge(ax, ay, bx, by, cx, cy) > 0,
    ensures
        ay <= py || by <= py || cy <= py,
        ay >= py || by >= py || cy >= py,
{
    let wa = edge(bx, by, cx, cy, px, py);
    let wb = edge(cx, cy, ax, ay, px, py);
    let wc = edge(ax, ay, bx, by, px, py);
    lemma_weights_sum(ax, ay, bx, by, cx, cy, px, py);
    lemma_edge_as_cross(bx, by, cx, cy, px, py);
    lemma_edge_as_cross(cx, cy, ax, ay, px, py);
    lemma_edge_as_cross(ax, ay, bx, by, px, py);
    let u = ax - px;
    let v = ay - py;
    let p = bx - px;
    let q = by - py;
    let r = cx - px;
    let s = cy - py;
    assert((p * s - r * q) * v + (r * v - u * s) * q + (u * q - p * v) * s == 0)
        by (nonlinear_arith);
    assert(wa * (ay - py) + wb * (by - py) + wc * (cy - py) == 0);
    if ay > py && by > py && cy > py {
        lemma_weighted_offset(wa, ay - py);
        lemma_weighted_offset(wb, by - py);
        lemma_weighted_offset(wc, cy - py);
    }
    if ay < py && by < py && cy < py {
        lemma_weighted_offset(wa, py - ay);
        lemma_weighted_offset(wb, py - by);
        lemma_weighted_offset(wc, py - cy);
        assert(wa * (-(py - ay)) == wa * (ay - py));
        assert(wb * (-(py - by)) == wb * (by - py));
        assert(wc * (-(py - cy)) == wc * (cy - py));
    }
}

/// The least of three raw values.
pub open spec fn min3(a: int, b: int, c: int) -> int {
    if a <= b && a <= c {
        a
    } else if b <= c {
        b
    } else {
        c
    }
}

/// The greatest of three raw values.
pub open spec fn max3(a: int, b: int, c: int) -> int {
    if a >= b && a >= c {
        a
    } else if b >= c {
        b
    } else {
        c
    }
}

/// A pixel that belongs to a triangle lies inside the bounding box of its
/// corners on the grid.
pub proof fn lemma_covered_in_box(t: ScreenTriangleModel, px: int, py: int)
    requires
        covers(t, px, py),
    ensures
        min3(gx(t.a), gx(t.b), gx(t.c)) <= px * 256 <= max3(gx(t.a), gx(t.b), gx(t.c)),
        min3(gy(t.a), gy(t.b), gy(t.c)) <= py * 256 <= max3(gy(t.a), gy(t.b), gy(t.c)),
        min3(gx(t.a), gx(t.b), gx(t.c)) / 256 <= px <= max3(gx(t.a), gx(t.b), gx(t.c)) / 256,
        min3(gy(t.a), gy(t.b), gy(t.c)) / 256 <= py <= max3(gy(t.a), gy(t.b), gy(t.c)) / 256,
{
    lemma_inside_between(
        gx(t.a),
        gy(t.a),
        gx(t.b),
        gy(t.b),
        gx(t.c),
        gy(t.c),
        px * 256,
        py * 256,
    );
    lemma_inside_between_rows(
        gx(t.a),
        gy(t.a),
        gx(t.b),
        gy(t.b),
        gx(t.c),
        gy(t.c),
        px * 256,
        py * 256,
    );
}

/// The products of an edge function stay far inside 128 bits when the
/// coordinates are grid coordinates of raw scalars.
pub proof fn lemma_edge_bound(ax: int, ay: int, bx: int, by: int, px: int, py: int)
    requires
        -0x80_0000_0000 <= ax <= 0x80_0000_0000,
        -0x80_0000_0000 <= ay <= 0x80_0000_0000,
        -0x80_0000_0000 <= bx <= 0x80_0000_0000,
        -0x80_0000_0000 <= by <= 0x80_0000_0000,
        -0x80_0000_0000 <= px <= 0x80_0000_0000,
        -0x80_0000_0000 <= py <= 0x80_0000_0000,
    ensures
        -0x1_0000_0000_0000_0000_0000 <= (bx - ax) * (py - ay) <= 0x1_0000_0000_0000_0000_0000,
        -0x1_0000_0000_0000_0000_0000 <= (by - ay) * (px - ax) <= 0x1_0000_0000_0000_0000_0000,
        -0x2_0000_0000_0000_0000_0000 <= edge(ax, ay, bx, by, px, py) <= 0x2_0000_0000_0000_0000_0000,
{
    let d1 = bx - ax;
    let d2 = py - ay;
    let d3 = by - ay;
    let d4 = px - ax;
    assert(-0x1_0000_0000_0000_0000_0000 <= d1 * d2 <= 0x1_0000_0000_0000_0000_0000) by (nonlinear_arith)
        requires
            -0x100_0000_0000 <= d1 <= 0x100_0000_0000,
            -0x100_0000_0000 <= d2 <= 0x100_0000_0000,
    ;
    assert(-0x1_0000_0000_0000_0000_0000 <= d3 * d4 <= 0x1_0000_0000_0000_0000_0000) by (nonlinear_arith)
        requires
            -0x100_0000_0000 <= d3 <= 0x100_0000_0000,
            -0x100_0000_0000 <= d4 <= 0x100_0000_0000,
    ;
}

/// Evaluates an edge function on grid coordinates.
fn edge_value(ax: i64, ay: i64, bx: i64, by: i64, px: i64, py: i64) -> (e: i128)
    requires
        -0x80_0000_0000 <= ax <= 0x80_0000_0000,
        -0x80_0000_0000 <= ay <= 0x80_0000_0000,
        -0x80_0000_0000 <= bx <= 0x80_0000_0000,
        -0x80_0000_0000 <= by <= 0x80_0000_0000,
        -0x80_0000_0000 <= px <= 0x80_0000_0000,
        -0x80_0000_0000 <= py <= 0x80_0000_0000,
    ensures
        e == edge(ax as int, ay as int, bx as int, by as int, px as int, py as int),
        -0x2_0000_0000_0000_0000_0000 <= e <= 0x2_0000_0000_0000_0000_0000,
{
    proof {
        lemma_edge_bound(ax as int, ay as int, bx as int, by as int, px as int, py as int);
    }
    ((bx - ax) as i128) * ((py - ay) as i128) - ((by - ay) as i128) * ((px - ax) as i128)
}

/// A raw screen coordinate in grid steps, rounded down.
fn snapped(x: Fx) -> (r: i64)
    ensures
        r == x@ / 16777216,
        -0x80_0000_0000 <= r < 0x80_0000_0000,
{
    floor_div_i128(x.raw as i128, 16777216) as i64
}

/// A raw depth as it enters the interpolation.
fn limited(z: Fx) -> (r: i128)
    ensures
        r == fx_clamp(z@, -0x800_0000_0000, 0x800_0000_0000),
        -0x800_0000_0000 <= r <= 0x800_0000_0000,
{
    if z.raw < -DEPTH_LIMIT_RAW {
        -0x800_0000_0000
    } else if z.raw > DEPTH_LIMIT_RAW {
        0x800_0000_0000
    } else {
        z.raw as i128
    }
}

/// The screen-space weights of a pixel, with twice the area of the triangle.
struct Weights {
    a: i128,
    b: i128,
    c: i128,
    area: i128,
}

impl ScreenTriangle {
    /// Twice the signed area of the triangle on the grid.
    fn area(&self) -> (e: i128)
        ensures
            e == area2(self@),
            -0x2_0000_0000_0000_0000_0000 <= e <= 0x2_0000_0000_0000_0000_0000,
    {
        edge_value(
            snapped(self.a.x),
            snapped(self.a.y),
            snapped(self.b.x),
            snapped(self.b.y),
            snapped(self.c.x),
            snapped(self.c.y),
        )
    }

    /// Whether the triangle is drawn at all: a front face of non-zero area.
    pub fn is_drawable(&self) -> (r: bool)
        ensures
            r == drawable(self@),
    {
        self.area() > 0
    }

    /// The weights of the pixel `(px, py)`.
    fn weights(&self, px: i64, py: i64) -> (w: Weights)
        requires
            0 <= px <= 0x8000_0000,
            0 <= py <= 0x8000_0000,
        ensures
            w.a == weight_a(self@, px as int, py as int),
            w.b == weight_b(self@, px as int, py as int),
            w.c == weight_c(self@, px as int, py as int),
            w.area == area2(self@),
            w.a + w.b + w.c == w.area,
            -0x2_0000_0000_0000_0000_0000 <= w.a <= 0x2_0000_0000_0000_0000_0000,
            -0x2_0000_0000_0000_0000_0000 <= w.b <= 0x2_0000_0000_0000_0000_0000,
            -0x2_0000_0000_0000_0000_0000 <= w.c <= 0x2_0000_0000_0000_0000_0000,
            -0x2_0000_0000_0000_0000_0000 <= w.area <= 0x2_0000_0000_0000_0000_0000,
    {
        let x = px * 256;
        let y = py * 256;
        let ax = snapped(self.a.x);
        let ay = snapped(self.a.y);
        let bx = snapped(self.b.x);
        let by = snapped(self.b.y);
        let cx = snapped(self.c.x);
        let cy = snapped(self.c.y);
        proof {
            lemma_weights_sum(
                ax as int,
                ay as int,
                bx as int,
                by as int,
                cx as int,
                cy as int,
                x as int,
                y as int,
            );
        }
        Weights {
            a: edge_value(bx, by, cx, cy, x, y),
            b: edge_value(cx, cy, ax, ay, x, y),
            c: edge_value(ax, ay, bx, by, x, y),
            area: edge_value(ax, ay, bx, by, cx, cy),
        }
    }

    /// Whether the pixel in column `px` of row `py` belongs to the triangle.
    ///
    /// The pixel is sampled at its whole-numbered coordinates; it belongs to
    /// the triangle when the triangle is drawable and none of the three edge
    /// functions is negative there, which includes the edges and the corners.
    pub fn covers(&self, px: usize, py: usize) -> (r: bool)
        ensures
            r == covers(self@, px as int, py as int),
    {
        if !self.is_drawable() {
            return false;
        }
        if px > 0x8000_0000 || py > 0x8000_0000 {
            proof {
                if covers(self@, px as int, py as int) {
                    lemma_covered_in_box(self@, px as int, py as int);
                }
            }
            return false;
        }
        let w = self.weights(px as i64, py as i64);
        w.a >= 0 && w.b >= 0 && w.c >= 0
    }
}

/// A weight times a limited depth stays far inside 128 bits.
pub proof fn lemma_weighted_depth_bound(w: int, z: int)
    requires
        -0x2_0000_0000_0000_0000_0000 <= w <= 0x2_0000_0000_0000_0000_0000,
        -0x800_0000_0000 <= z <= 0x800_0000_0000,
    ensures
        -0x1000_0000_0000_0000_0000_0000_0000_0000 <= w * z <= 0x1000_0000_0000_0000_0000_0000_0000_0000,
{
    assert(-0x1000_0000_0000_0000_0000_0000_0000_0000 <= w * z <= 0x1000_0000_0000_0000_0000_0000_0000_0000)
        by (nonlinear_arith)
        requires
            -0x2_0000_0000_0000_0000_0000 <= w <= 0x2_0000_0000_0000_0000_0000,
            -0x800_0000_0000 <= z <= 0x800_0000_0000,
    ;
}

/// The perspective-correct weights of a pixel, as scalars.
struct BlendWeights {
    a: Fx,
    b: Fx,
    c: Fx,
}

impl BlendWeights {
    spec fn model(&self) -> Blend {
        Blend { a: self.a@, b: self.b@, c: self.c@ }
    }

    /// Blends three vectors.
    fn vector(&self, a: Vec3, b: Vec3, c: Vec3) -> (r: Vec3)
        ensures
            r@ == mix3(self.model(), a@, b@, c@),
    {
        a.scale(self.a).add(b.scale(self.b)).add(c.scale(self.c))
    }

    /// Blends three scalars.
    fn scalar(&self, a: Fx, b: Fx, c: Fx) -> (r: Fx)
        ensures
            r@ == mix1(self.model(), a@, b@, c@),
    {
        a.mul(self.a).add(b.mul(self.b)).add(c.mul(self.c))
    }
}

impl ScreenTriangle {
    /// The depth of the triangle at the pixel in column `px` of row `py`.
    ///
    /// The depths of the corners are weighted by the weights of the pixel;
    /// at a pixel outside the triangle the result is the depth of its plane.
    /// The pixel has to lie within the first `2^31` columns and rows, beyond
    /// which no corner can lie.
    pub fn depth(&self, px: usize, py: usize) -> (z: Fx)
        requires
            px <= 0x8000_0000,
            py <= 0x8000_0000,
        ensures
            z@ == depth_at(self@, px as int, py as int),
    {
        let w = self.weights(px as i64, py as i64);
        let za = limited(self.a.z);
        let zb = limited(self.b.z);
        let zc = limited(self.c.z);
        proof {
            lemma_weighted_depth_bound(w.a as int, za as int);
            lemma_weighted_depth_bound(w.b as int, zb as int);
            lemma_weighted_depth_bound(w.c as int, zc as int);
        }
        let total: i128 = w.a * za + w.b * zb + w.c * zc;
        Fx { raw: saturate_i128(floor_div_i128(total, w.area)) }
    }

    /// The perspective-correct weights of a pixel.
    fn blend(&self, px: usize, py: usize) -> (r: BlendWeights)
        requires
            px <= 0x8000_0000,
            py <= 0x8000_0000,
        ensures
            r.model() == blend_at(self@, px as int, py as int),
    {
        let w = self.weights(px as i64, py as i64);
        let la = Fx { raw: saturate_i128(floor_div_i128(w.a * 4294967296, w.area)) };
        let lb = Fx { raw: saturate_i128(floor_div_i128(w.b * 4294967296, w.area)) };
        let lc = Fx { raw: saturate_i128(floor_div_i128(w.c * 4294967296, w.area)) };
        let qa = la.mul(self.a.inv_w);
        let qb = lb.mul(self.b.inv_w);
        let qc = lc.mul(self.c.inv_w);
        let sum = qa.add(qb).add(qc);
        if sum.raw == 0 {
            BlendWeights { a: la, b: lb, c: lc }
        } else {
            BlendWeights { a: qa.div(sum), b: qb.div(sum), c: qc.div(sum) }
        }
    }

    /// The attributes of the fragment at the pixel in column `px` of row
    /// `py`, interpolated with perspective-correct weights.
    ///
    /// The pixel has to lie within the first `2^31` columns and rows.
    pub fn varyings(&self, px: usize, py: usize) -> (v: Varyings)
        requires
            px <= 0x8000_0000,
            py <= 0x8000_0000,
        ensures
            v@ == varyings_at(self@, px as int, py as int),
    {
        let w = self.blend(px, py);
        Varyings {
            pos_ws: w.vector(self.a.vary.pos_ws, self.b.vary.pos_ws, self.c.vary.pos_ws),
            nrm_ws: w.vector(self.a.vary.nrm_ws, self.b.vary.nrm_ws, self.c.vary.nrm_ws),
            uv: Vec2 {
                x: w.scalar(self.a.vary.uv.x, self.b.vary.uv.x, self.c.vary.uv.x),
                y: w.scalar(self.a.vary.uv.y, self.b.vary.uv.y, self.c.vary.uv.y),
            },
        }
    }
}

/// At a corner that lies on a pixel, a drawable triangle covers the pixel,
/// its depth there is the depth of the corner, and the interpolated
/// attributes are those of the corner.
pub proof fn lemma_corner_is_reproduced(t: ScreenTriangleModel, px: int, py: int)
    requires
        drawable(t),
        gx(t.a) == px * 256,
        gy(t.a) == py * 256,
        -0x800_0000_0000 <= t.a.z <= 0x800_0000_0000,
        -0x8000_0000_0000_0000 <= t.a.inv_w <= 0x7fff_ffff_ffff_ffff,
        -0x2000_0000_0000_0000 <= t.a.vary.pos_ws.x <= 0x2000_0000_0000_0000,
        -0x2000_0000_0000_0000 <= t.a.vary.pos_ws.y <= 0x2000_0000_0000_0000,
        -0x2000_0000_0000_0000 <= t.a.vary.pos_ws.z <= 0x2000_0000_0000_0000,
        -0x2000_0000_0000_0000 <= t.a.vary.nrm_ws.x <= 0x2000_0000_0000_0000,
        -0x2000_0000_0000_0000 <= t.a.vary.nrm_ws.y <= 0x2000_0000_0000_0000,
        -0x2000_0000_0000_0000 <= t.a.vary.nrm_ws.z <= 0x2000_0000_0000_0000,
        -0x2000_0000_0000_0000 <= t.a.vary.uv.x <= 0x2000_0000_0000_0000,
        -0x2000_0000_0000_0000 <= t.a.vary.uv.y <= 0x2000_0000_0000_0000,
    ensures
        covers(t, px, py),
        depth_at(t, px, py) == t.a.z,
        varyings_at(t, px, py) == t.a.vary,
{
    let area = area2(t);
    let ax = gx(t.a);
    let ay = gy(t.a);
    let bx = gx(t.b);
    let by = gy(t.b);
    let cx = gx(t.c);
    let cy = gy(t.c);
    lemma_weights_sum(ax, ay, bx, by, cx, cy, px * 256, py * 256);
    assert(weight_c(t, px, py) == 0) by {
        assert((bx - ax) * (ay - ay) == 0 && (by - ay) * (ax - ax) == 0) by (nonlinear_arith);
    }
    assert(weight_b(t, px, py) == 0) by {
        assert((ax - cx) * (ay - cy) == (ay - cy) * (ax - cx)) by (nonlinear_arith);
    }
    assert(weight_a(t, px, py) == area);
    assert(0 * gz(t.b) == 0 && 0 * gz(t.c) == 0);
    assert((area * t.a.z) / area == t.a.z && (area * 4294967296) / area == 4294967296 && (0int
        * 4294967296) / area == 0) by (nonlinear_arith)
        requires
            area > 0,
    ;
    let q = fx_mul(4294967296, t.a.inv_w);
    assert(q == t.a.inv_w);
    assert(fx_mul(0, t.b.inv_w) == 0) by {
        assert(0 * t.b.inv_w == 0);
    }
    assert(fx_mul(0, t.c.inv_w) == 0) by {
        assert(0 * t.c.inv_w == 0);
    }
    if q != 0 {
        if q > 0 {
            assert((q * 4294967296) / q == 4294967296 && (0int * 4294967296) / q == 0)
                by (nonlinear_arith)
                requires
                    q > 0,
            ;
        } else {
            assert((-(q * 4294967296)) / (-q) == 4294967296 && (-(0int * 4294967296)) / (-q) == 0)
                by (nonlinear_arith)
                requires
                    q < 0,
            ;
        }
        assert(fx_div(q, q) == 4294967296);
        assert(fx_div(0, q) == 0);
    }
    let w = blend_at(t, px, py);
    assert(w.a == 4294967296 && w.b == 0 && w.c == 0);
    lemma_zero_weight(t.b.vary.pos_ws);
    lemma_zero_weight(t.c.vary.pos_ws);
    lemma_zero_weight(t.b.vary.nrm_ws);
    lemma_zero_weight(t.c.vary.nrm_ws);
    assert(t.b.vary.uv.x * 0 == 0 && t.b.vary.uv.y * 0 == 0 && t.c.vary.uv.x * 0 == 0
        && t.c.vary.uv.y * 0 == 0);
}

/// A vector with weight zero contributes nothing.
pub proof fn lemma_zero_weight(v: V3)
    ensures
        v3_scale(v, 0) == (V3 { x: 0, y: 0, z: 0 }),
{
    assert(v.x * 0 == 0 && v.y * 0 == 0 && v.z * 0 == 0);
}

/// The frame while a triangle is being drawn: the pixels with an index below
/// `n` have been visited, the others not yet.
pub open spec fn frame_scanned<S: Shader>(
    f: FrameModel,
    t: ScreenTriangleModel,
    shader: S,
    u: Uniforms,
    n: int,
) -> FrameModel {
    FrameModel {
        width: f.width,
        height: f.height,
        color: Seq::new(
            f.color.len(),
            |i: int|
                if i < n && wins(f, t, i) {
                    shader.fragment_color(
                        varyings_at(t, i % (f.width as int), i / (f.width as int)),
                        u,
                    )
                } else {
                    f.color[i]
                },
        ),
        depth: Seq::new(
            f.depth.len(),
            |i: int|
                if i < n && wins(f, t, i) {
                    depth_at(t, i % (f.width as int), i / (f.width as int))
                } else {
                    f.depth[i]
                },
        ),
    }
}

/// Visiting pixels that the triangle does not win changes nothing.
pub proof fn lemma_scan_skip<S: Shader>(
    f: FrameModel,
    t: ScreenTriangleModel,
    shader: S,
    u: Uniforms,
    n1: int,
    n2: int,
)
    requires
        n1 <= n2,
        forall|i: int| n1 <= i < n2 ==> !wins(f, t, i),
    ensures
        frame_scanned(f, t, shader, u, n1) == frame_scanned(f, t, shader, u, n2),
{
    let a = frame_scanned(f, t, shader, u, n1);
    let b = frame_scanned(f, t, shader, u, n2);
    assert(a.color =~= b.color);
    assert(a.depth =~= b.depth);
}

/// Before any pixel is visited the frame is the one drawing started from, and
/// once all are visited it is the frame after the triangle.
pub proof fn lemma_scan_ends<S: Shader>(
    f: FrameModel,
    t: ScreenTriangleModel,
    shader: S,
    u: Uniforms,
    n: int,
)
    requires
        f.color.len() == f.width * f.height,
        f.depth.len() == f.width * f.height,
    ensures
        n <= 0 ==> frame_scanned(f, t, shader, u, n) == f,
        n >= f.width * f.height ==> frame_scanned(f, t, shader, u, n) == frame_after_triangle(
            f,
            t,
            shader,
            u,
        ),
{
    let a = frame_scanned(f, t, shader, u, n);
    if n <= 0 {
        assert(a.color =~= f.color);
        assert(a.depth =~= f.depth);
    }
    if n >= f.width * f.height {
        let b = frame_after_triangle(f, t, shader, u);
        assert(a.color =~= b.color);
        assert(a.depth =~= b.depth);
    }
}

/// Visiting one pixel offers the triangle's fragment there to the frame.
pub proof fn lemma_scan_step<S: Shader>(
    f: FrameModel,
    t: ScreenTriangleModel,
    shader: S,
    u: Uniforms,
    n: int,
)
    requires
        f.width > 0,
        f.color.len() == f.width * f.height,
        f.depth.len() == f.width * f.height,
        0 <= n < f.width * f.height,
        covers(t, n % (f.width as int), n / (f.width as int)),
    ensures
        frame_scanned(f, t, shader, u, n + 1) == frame_with_fragment(
            frame_scanned(f, t, shader, u, n),
            n,
            shader.fragment_color(varyings_at(t, n % (f.width as int), n / (f.width as int)), u),
            depth_at(t, n % (f.width as int), n / (f.width as int)),
        ),
{
    let a = frame_scanned(f, t, shader, u, n + 1);
    let b = frame_with_fragment(
        frame_scanned(f, t, shader, u, n),
        n,
        shader.fragment_color(varyings_at(t, n % (f.width as int), n / (f.width as int)), u),
        depth_at(t, n % (f.width as int), n / (f.width as int)),
    );
    assert(a.color =~= b.color);
    assert(a.depth =~= b.depth);
}

/// The column and the row of a pixel are recovered from its index.
pub proof fn lemma_index_parts(px: int, py: int, width: int)
    requires
        0 <= px < width,
        0 <= py,
    ensures
        (py * width + px) % width == px,
        (py * width + px) / width == py,
{
    vstd::arithmetic::div_mod::lemma_fundamental_div_mod_converse(py * width + px, width, py, px);
}

/// A raw coordinate as a column or row number limited to `[0, limit]`.
fn clamp_index(v: i64, limit: usize) -> (r: usize)
    ensures
        v <= 0 ==> r == 0,
        0 < v <= limit ==> r == v,
        v > limit ==> r == limit,
{
    if v <= 0 {
        0
    } else if (v as u64) > (limit as u64) {
        limit
    } else {
        v as usize
    }
}

/// The least of three grid coordinates.
fn least(a: i64, b: i64, c: i64) -> (r: i64)
    ensures
        r == min3(a as int, b as int, c as int),
{
    if a <= b && a <= c {
        a
    } else if b <= c {
        b
    } else {
        c
    }
}

/// The greatest of three grid coordinates.
fn greatest(a: i64, b: i64, c: i64) -> (r: i64)
    ensures
        r == max3(a as int, b as int, c as int),
{
    if a >= b && a >= c {
        a
    } else if b >= c {
        b
    } else {
        c
    }
}

/// The pixel that holds a grid coordinate.
fn pixel_of(g: i64) -> (r: i64)
    requires
        -0x80_0000_0000 <= g < 0x80_0000_0000,
    ensures
        r == g / 256,
        -0x8000_0000 <= r < 0x8000_0000,
{
    if g >= 0 {
        g / 256
    } else {
        -((255 - g) / 256)
    }
}

/// A pixel outside the rows and columns of the bounding box of a triangle is
/// not won by it.
pub proof fn lemma_outside_box<S: Shader>(f: FrameModel, t: ScreenTriangleModel, i: int)
    requires
        f.width > 0,
        0 <= i < f.width * f.height,
        ({
            let px = i % (f.width as int);
            let py = i / (f.width as int);
            ||| px < min3(gx(t.a), gx(t.b), gx(t.c)) / 256
            ||| px > max3(gx(t.a), gx(t.b), gx(t.c)) / 256
            ||| py < min3(gy(t.a), gy(t.b), gy(t.c)) / 256
            ||| py > max3(gy(t.a), gy(t.b), gy(t.c)) / 256
        }),
    ensures
        !wins(f, t, i),
{
    let px = i % (f.width as int);
    let py = i / (f.width as int);
    if covers(t, px, py) {
        lemma_covered_in_box(t, px, py);
    }
}

/// Draws one triangle.
///
/// The pixels of the bounding box of the triangle, cut to the frame, are
/// visited row by row. Where a pixel belongs to the triangle, the depth of
/// the triangle there is compared with the depth in the frame; only if it is
/// strictly less is the fragment shaded, with attributes interpolated with
/// perspective-correct weights, and written with its depth. A triangle that
/// is not drawable leaves the frame as it is.
pub fn draw_triangle<S: Shader>(
    fb: &mut Framebuffer,
    tri: &ScreenTriangle,
    shader: &S,
    u: &Uniforms,
)
    requires
        old(fb).wf(),
    ensures
        final(fb).wf(),
        final(fb)@ == frame_after_triangle(old(fb)@, tri@, *shader, *u),
{
    let width = fb.width();
    let height = fb.height();
    let ghost f0 = fb@;
    let ghost t = tri@;
    proof {
        fb.lemma_wf_model();
        lemma_scan_ends(f0, t, *shader, *u, 0);
        lemma_scan_ends(f0, t, *shader, *u, width * height);
    }
    if width == 0 || height == 0 || !tri.is_drawable() {
        proof {
            if width == 0 || height == 0 {
                assert(width * height == 0) by (nonlinear_arith)
                    requires
                        width == 0 || height == 0,
                ;
            }
            lemma_scan_skip(f0, t, *shader, *u, 0, width * height);
        }
        return ;
    }
    let ax = snapped(tri.a.x);
    let bx = snapped(tri.b.x);
    let cx = snapped(tri.c.x);
    let ay = snapped(tri.a.y);
    let by = snapped(tri.b.y);
    let cy = snapped(tri.c.y);
    let x_lo = clamp_index(pixel_of(least(ax, bx, cx)), width);
    let x_end = clamp_index(pixel_of(greatest(ax, bx, cx)) + 1, width);
    let y_lo = clamp_index(pixel_of(least(ay, by, cy)), height);
    let y_end = clamp_index(pixel_of(greatest(ay, by, cy)) + 1, height);
    if x_lo >= x_end || y_lo >= y_end {
        proof {
            assert(min3(gx(t.a), gx(t.b), gx(t.c)) <= max3(gx(t.a), gx(t.b), gx(t.c)));
            assert(min3(gy(t.a), gy(t.b), gy(t.c)) <= max3(gy(t.a), gy(t.b), gy(t.c)));
            assert forall|i: int| 0 <= i < width * height implies !wins(f0, t, i) by {
                vstd::arithmetic::div_mod::lemma_mod_bound(i, width as int);
                lemma_row_of(i, width as int, height as int);
                assert(width * height == height * width) by (nonlinear_arith);
                lemma_outside_box::<S>(f0, t, i);
            }
            lemma_scan_skip(f0, t, *shader, *u, 0, width * height);
        }
        return ;
    }
    proof {
        assert(y_lo * width <= width * height) by (nonlinear_arith)
            requires
                0 <= y_lo <= height,
                0 <= width,
        ;
        assert forall|i: int| 0 <= i < y_lo * width implies !wins(f0, t, i) by {
            lemma_row_of(i, width as int, y_lo as int);
            lemma_outside_box::<S>(f0, t, i);
        }
        lemma_scan_skip(f0, t, *shader, *u, 0, y_lo * width);
    }
    let mut py = y_lo;
    while py < y_end
        invariant
            width == f0.width,
            height == f0.height,
            width > 0,
            f0.color.len() == width * height,
            f0.depth.len() == width * height,
            width * height <= usize::MAX,
            t == tri@,
            drawable(t),
            x_lo < x_end <= width,
            y_lo <= py <= y_end <= height,
            x_lo == 0 || x_lo <= min3(gx(t.a), gx(t.b), gx(t.c)) / 256,
            x_end == width || x_end > max3(gx(t.a), gx(t.b), gx(t.c)) / 256,
            fb.wf(),
            fb@ == frame_scanned(f0, t, *shader, *u, py * width),
        decreases y_end - py,
    {
        proof {
            lemma_pixel_index(0, py as int, width as int, height as int);
            lemma_pixel_index(width - 1, py as int, width as int, height as int);
            assert forall|i: int| py * width <= i < py * width + x_lo implies !wins(f0, t, i) by {
                lemma_index_parts(i - py * width, py as int, width as int);
                lemma_outside_box::<S>(f0, t, i);
            }
            lemma_scan_skip(f0, t, *shader, *u, py * width, py * width + x_lo);
        }
        let mut px = x_lo;
        while px < x_end
            invariant
                width == f0.width,
                height == f0.height,
                width > 0,
                f0.color.len() == width * height,
                f0.depth.len() == width * height,
                width * height <= usize::MAX,
                t == tri@,
                drawable(t),
                x_lo <= px <= x_end <= width,
                py < y_end <= height,
                0 <= py * width,
                py * width + width <= width * height,
                fb.wf(),
                fb@ == frame_scanned(f0, t, *shader, *u, py * width + px),
            decreases x_end - px,
        {
            let ghost n = py * width + px;
            proof {
                lemma_index_parts(px as int, py as int, width as int);
            }
            if tri.covers(px, py) {
                proof {
                    lemma_covered_in_box(t, px as int, py as int);
                    lemma_scan_step(f0, t, *shader, *u, n);
                }
                let depth = tri.depth(px, py);
                if fb.passes(px, py, depth) {
                    let vary = tri.varyings(px, py);
                    let c = shader.fragment(&vary, u);
                    fb.plot(px, py, c, depth);
                }
            } else {
                proof {
                    lemma_scan_skip(f0, t, *shader, *u, n, n + 1);
                }
            }
            px = px + 1;
        }
        proof {
            assert forall|i: int| py * width + x_end <= i < (py + 1) * width implies !wins(
                f0,
                t,
                i,
            ) by {
                assert((py + 1) * width == py * width + width) by (nonlinear_arith);
                lemma_index_parts(i - py * width, py as int, width as int);
                lemma_outside_box::<S>(f0, t, i);
            }
            assert((py + 1) * width == py * width + width) by (nonlinear_arith);
            lemma_scan_skip(f0, t, *shader, *u, py * width + x_end, (py + 1) * width);
        }
        py = py + 1;
    }
    proof {
        assert(y_end * width <= width * height) by (nonlinear_arith)
            requires
                0 <= y_end <= height,
                0 <= width,
        ;
        assert forall|i: int| y_end * width <= i < width * height implies !wins(f0, t, i) by {
            lemma_row_from(i, width as int, y_end as int);
            lemma_outside_box::<S>(f0, t, i);
        }
        lemma_scan_skip(f0, t, *shader, *u, y_end * width, width * height);
    }
}

/// A pixel with an index below the start of row `row` lies in an earlier row.
pub proof fn lemma_row_of(i: int, width: int, row: int)
    requires
        width > 0,
        0 <= i < row * width,
    ensures
        0 <= i / width < row,
{
    vstd::arithmetic::div_mod::lemma_fundamental_div_mod(i, width);
    vstd::arithmetic::div_mod::lemma_mod_bound(i, width);
    let q = i / width;
    if q >= row {
        assert(width * q >= width * row) by (nonlinear_arith)
            requires
                q >= row,
                width > 0,
        ;
        assert(width * row == row * width) by (nonlinear_arith);
    }
    if q < 0 {
        assert(width * q <= -width) by (nonlinear_arith)
            requires
                q <= -1,
                width > 0,
        ;
    }
}

/// A pixel with an index at or past the start of row `row` lies in that row
/// or a later one.
pub proof fn lemma_row_from(i: int, width: int, row: int)
    requires
        width > 0,
        row * width <= i,
    ensures
        i / width >= row,
{
    vstd::arithmetic::div_mod::lemma_fundamental_div_mod(i, width);
    vstd::arithmetic::div_mod::lemma_mod_bound(i, width);
    let q = i / width;
    if q < row {
        assert(width * q + width <= width * row) by (nonlinear_arith)
            requires
                q + 1 <= row,
                width > 0,
        ;
        assert(width * row == row * width) by (nonlinear_arith);
    }
}

} // verus!
