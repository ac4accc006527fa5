//! The star: a rotating, flickering sphere that emits its own light.

use vstd::prelude::*;
use crate::elementary::{fx_pow, fx_sin};
use crate::fixed::{
    fx_abs, fx_add, fx_div, fx_max, fx_min, fx_mul, fx_ratio, fx_sub, fx_unit, Fx,
};
use crate::math::mat::{m4_mul, m4_mul_vec, m4_rotation_y, rotation_y, M4};
use crate::math::noise::{cellular, cellular_3d};
use crate::math::vec::{
    v3_add, v3_dot, v3_length, v3_lerp, v3_moderate, v3_normalize, v3_scale, v3_sub, v4_from,
    v4_xyz, Vec3, Vec4, V3,
};
use crate::mesh::Vertex;
use crate::renderer::buffers::{channel_level, Color, FrameModel};
use crate::renderer::pipeline::{
    frame_after_mesh, lemma_mesh_depth_bound, lemma_mesh_keeps_shape, mesh_triangle, Shader,
    VertexIn, VertexInModel, VertexOut, VertexOutModel,
};
use crate::renderer::raster::{
    covers, depth_at, frame_after_triangle, varyings_at, ScreenTriangleModel, Varyings,
    VaryingsModel,
};
use crate::renderer::uniforms::{StarParams, Uniforms};
use crate::shaders::common::{
    fbm_3d_type, fbm_typed, lambert, lambert_term, lerp3, rim, rim_term, saturate, to_color,
};

verus! {

/// The star style.
#[derive(Clone, Copy, Debug, Default)]
pub struct Star;

/// Hermite step from zero at `edge0` to one at `edge1`: with `t` the position
/// of `x` between the edges, limited to the unit interval, `t^2 (3 - 2 t)`.
pub open spec fn smooth(edge0: int, edge1: int, x: int) -> int {
    let t = fx_unit(fx_div(fx_sub(x, edge0), fx_sub(edge1, edge0)));
    fx_mul(fx_mul(t, t), fx_sub(12884901888, fx_mul(8589934592, t)))
}

/// Deep orange, the colour of the faintest surface.
pub open spec fn stop0() -> V3 {
    V3 { x: fx_ratio(85, 100), y: fx_ratio(25, 100), z: fx_ratio(5, 100) }
}

/// Warm orange.
pub open spec fn stop1() -> V3 {
    V3 { x: 4294967296, y: fx_ratio(50, 100), z: fx_ratio(10, 100) }
}

/// Gold.
pub open spec fn stop2() -> V3 {
    V3 { x: 4294967296, y: fx_ratio(80, 100), z: fx_ratio(30, 100) }
}

/// Warm white, the colour of the brightest surface.
pub open spec fn stop3() -> V3 {
    V3 { x: 4294967296, y: fx_ratio(95, 100), z: fx_ratio(85, 100) }
}

/// The colour of the surface at intensity `t`: three smooth blends between
/// four stops, the stops changing at 0.33 and 0.66.
pub open spec fn gradient_color(t: int) -> V3 {
    if t < fx_ratio(33, 100) {
        v3_lerp(stop0(), stop1(), smooth(0, fx_ratio(33, 100), t))
    } else if t < fx_ratio(66, 100) {
        v3_lerp(stop1(), stop2(), smooth(fx_ratio(33, 100), fx_ratio(66, 100), t))
    } else {
        v3_lerp(stop2(), stop3(), smooth(fx_ratio(66, 100), 4294967296, t))
    }
}

/// The gradient colour moved towards white by three tenths of the relative
/// temperature.
pub open spec fn emission(intensity: int, temp_norm: int) -> V3 {
    v3_lerp(
        gradient_color(intensity),
        V3 { x: 4294967296, y: fx_ratio(98, 100), z: fx_ratio(92, 100) },
        fx_mul(temp_norm, fx_ratio(3, 10)),
    )
}

/// The offset `(t * a, t * b, t * c)` that moves a noise field with time;
/// `a`, `b` and `c` are given in hundredths.
pub open spec fn drift(t: int, a: int, b: int, c: int) -> V3 {
    V3 {
        x: fx_mul(t, fx_ratio(a, 100)),
        y: fx_mul(t, fx_ratio(b, 100)),
        z: fx_mul(t, fx_ratio(c, 100)),
    }
}

/// Intensity of the surface at `p` and time `t`: three layers of fractal
/// noise of rising frequency with weights 0.5, 0.3 and 0.2, times a slow
/// pulsation between 0.8 and 1, limited to the unit interval.
pub open spec fn surface(p: V3, t: int, params: StarParams) -> int {
    let kind = params.noise_type;
    let scale = params.noise_scale@;
    let n1 = fbm_typed(v3_add(p, drift(t, 8, 5, -3)), 4, 8589934592, fx_ratio(55, 100), scale, kind);
    let n2 = fbm_typed(
        v3_add(v3_scale(p, fx_ratio(18, 10)), drift(t, -6, 9, 3)),
        3,
        8589934592,
        fx_ratio(55, 100),
        fx_mul(scale, fx_ratio(8, 10)),
        kind,
    );
    let n3 = fbm_typed(
        v3_add(v3_scale(p, fx_ratio(32, 10)), drift(t, 20, -15, 12)),
        2,
        8589934592,
        2147483648,
        fx_mul(scale, fx_ratio(6, 10)),
        kind,
    );
    let combo = fx_add(
        fx_add(fx_mul(n1, 2147483648), fx_mul(n2, fx_ratio(3, 10))),
        fx_mul(n3, fx_ratio(2, 10)),
    );
    let pulsate = fx_add(
        fx_mul(fx_sin(fx_mul(t, fx_ratio(4, 10))), fx_ratio(1, 10)),
        fx_ratio(9, 10),
    );
    fx_unit(fx_mul(combo, pulsate))
}

/// The flare signal at `p` and time `t`: a noise of higher frequency, folded
/// about its middle and raised to the power 2.5 so that only thin ridges
/// stay bright, times the flare strength, limited to the unit interval.
pub open spec fn flare(p: V3, t: int, params: StarParams) -> int {
    let at = v3_add(v3_scale(p, fx_ratio(45, 10)), drift(t, 60, -40, 30));
    let base = if params.use_cellular_flares {
        cellular(at)
    } else {
        fbm_typed(
            at,
            3,
            8589934592,
            fx_ratio(6, 10),
            fx_mul(params.noise_scale@, fx_ratio(8, 10)),
            params.noise_type,
        )
    };
    let ridge = fx_abs(fx_sub(fx_mul(base, fx_ratio(15, 10)), fx_ratio(75, 100)));
    fx_unit(fx_mul(fx_mul(fx_pow(ridge, fx_ratio(25, 10)), params.flare_intensity@), fx_ratio(6, 10)))
}

/// The factor by which the vertex stage moves a vertex away from the centre:
/// one, plus a flare ridge of fractal noise at the vertex direction raised to
/// the power 3.5, plus a slow wave along the radius.
pub open spec fn radial_scale(pos: V3, t: int, params: StarParams) -> int {
    let f = fbm_typed(
        v3_add(v3_normalize(pos), drift(t, 15, -12, 8)),
        3,
        8589934592,
        fx_ratio(6, 10),
        fx_mul(params.noise_scale@, fx_ratio(15, 10)),
        params.noise_type,
    );
    let ridge = fx_mul(
        fx_mul(
            fx_pow(fx_abs(fx_sub(fx_mul(f, fx_ratio(18, 10)), fx_ratio(9, 10))), fx_ratio(35, 10)),
            fx_ratio(8, 100),
        ),
        params.flare_intensity@,
    );
    let wave = fx_mul(
        fx_sin(fx_add(fx_mul(t, fx_ratio(6, 10)), fx_mul(v3_length(pos), 17179869184))),
        fx_ratio(15, 1000),
    );
    fx_add(fx_add(4294967296, ridge), wave)
}

/// The normal of a vertex of the star in world space, before it is brought
/// to unit length: the normal turned with the model, without any shift.
pub open spec fn star_normal(vin: VertexInModel, u: Uniforms) -> V3 {
    let model = m4_mul(u.model@, m4_rotation_y(fx_mul(u.time@, u.star.rot_speed@)));
    v4_xyz(m4_mul_vec(model, v4_from(vin.nrm, 0)))
}

/// The vertex stage of the star: the model is turned about its axis by the
/// time times the rotation speed, the vertex is moved along its radius, and
/// the result is taken to world and to clip space.
pub open spec fn star_vertex(vin: VertexInModel, u: Uniforms) -> VertexOutModel {
    let t = u.time@;
    let model = m4_mul(u.model@, m4_rotation_y(fx_mul(t, u.star.rot_speed@)));
    let displaced = v4_from(v3_scale(vin.pos, radial_scale(vin.pos, t, u.star)), 4294967296);
    VertexOutModel {
        clip_pos: m4_mul_vec(m4_mul(m4_mul(u.proj@, u.view@), model), displaced),
        pos_ws: v4_xyz(m4_mul_vec(model, displaced)),
        nrm_ws: v3_normalize(v4_xyz(m4_mul_vec(model, v4_from(vin.nrm, 0)))),
        uv: vin.uv,
    }
}

/// The light a fragment of the star sends out, before quantization.
///
/// The emission is `intensity^1.8 * 0.7 + flare * 0.9`, at most 2.5. Half of
/// the gradient colour is lit by it and half by a diffuse term with an
/// ambient floor of 0.3; a warm rim glow of power 2.5 is added on top.
pub open spec fn star_light(vary: VaryingsModel, u: Uniforms) -> V3 {
    let t = u.time@;
    let view_dir = v3_normalize(v3_sub(u.camera_pos@, vary.pos_ws));
    let intensity = surface(v3_scale(vary.pos_ws, fx_ratio(9, 10)), t, u.star);
    let fl = flare(vary.pos_ws, t, u.star);
    let base_col = emission(intensity, u.star.temp_norm@);
    let emitted = fx_min(
        fx_add(
            fx_mul(fx_pow(intensity, fx_ratio(18, 10)), fx_ratio(7, 10)),
            fx_mul(fl, fx_ratio(9, 10)),
        ),
        fx_ratio(25, 10),
    );
    let diff = fx_add(
        fx_ratio(3, 10),
        fx_mul(fx_ratio(7, 10), lambert_term(vary.nrm_ws, u.light_dir@)),
    );
    let glow = fx_mul(rim_term(vary.nrm_ws, view_dir, fx_ratio(25, 10)), 2147483648);
    let glow_col = v3_scale(V3 { x: 4294967296, y: fx_ratio(65, 100), z: fx_ratio(25, 100) }, glow);
    v3_add(
        v3_add(
            v3_scale(v3_scale(base_col, diff), 2147483648),
            v3_scale(v3_scale(base_col, emitted), 2147483648),
        ),
        v3_scale(glow_col, fx_ratio(8, 10)),
    )
}

/// The colour of a fragment of the star: its light, quantized.
pub open spec fn star_fragment(vary: VaryingsModel, u: Uniforms) -> Color {
    let light = star_light(vary, u);
    Color {
        r: channel_level(light.x) as u8,
        g: channel_level(light.y) as u8,
        b: channel_level(light.z) as u8,
        a: 255,
    }
}

/// The Hermite step is zero at its lower edge and one at its upper edge.
pub proof fn lemma_smooth_ends(edge0: int, edge1: int)
    requires
        -0x2000_0000_0000_0000 <= edge0 < edge1 <= 0x2000_0000_0000_0000,
    ensures
        smooth(edge0, edge1, edge0) == 0,
        smooth(edge0, edge1, edge1) == 4294967296,
{
    let d = edge1 - edge0;
    assert((d * 4294967296) / d == 4294967296 && (0int * 4294967296) / d == 0) by (nonlinear_arith)
        requires
            d > 0,
    ;
    assert(fx_sub(edge1, edge0) == d);
    assert(fx_div(0, d) == 0);
    assert(fx_div(d, d) == 4294967296);
    let low = fx_unit(fx_div(fx_sub(edge0, edge0), fx_sub(edge1, edge0)));
    assert(low == 0);
    assert(fx_mul(low, low) == 0) by {
        assert(low * low == 0) by (nonlinear_arith)
            requires
                low == 0,
        ;
    }
    assert(fx_mul(0, fx_sub(12884901888, fx_mul(8589934592, low))) == 0) by {
        let k = fx_sub(12884901888, fx_mul(8589934592, low));
        assert(0 * k == 0);
    }
    let high = fx_unit(fx_div(fx_sub(edge1, edge0), fx_sub(edge1, edge0)));
    assert(high == 4294967296);
    assert(fx_mul(high, high) == 4294967296) by {
        assert(high * high == 4294967296 * 4294967296) by (nonlinear_arith)
            requires
                high == 4294967296,
        ;
    }
    assert(fx_mul(8589934592, high) == 8589934592) by {
        assert(8589934592 * high == 8589934592 * 4294967296);
    }
    assert(fx_mul(4294967296, 4294967296) == 4294967296);
}

/// A blend with weight zero is its first end, and with weight one its
/// second.
pub proof fn lemma_lerp_ends(a: V3, b: V3)
    requires
        -0x2000_0000_0000_0000 <= a.x <= 0x2000_0000_0000_0000,
        -0x2000_0000_0000_0000 <= a.y <= 0x2000_0000_0000_0000,
        -0x2000_0000_0000_0000 <= a.z <= 0x2000_0000_0000_0000,
        -0x2000_0000_0000_0000 <= b.x <= 0x2000_0000_0000_0000,
        -0x2000_0000_0000_0000 <= b.y <= 0x2000_0000_0000_0000,
        -0x2000_0000_0000_0000 <= b.z <= 0x2000_0000_0000_0000,
    ensures
        v3_lerp(a, b, 0) == a,
        v3_lerp(a, b, 4294967296) == b,
{
    assert((b.x - a.x) * 0 == 0 && (b.y - a.y) * 0 == 0 && (b.z - a.z) * 0 == 0);
}

/// The gradient has no jump where its blends change: at 0.33 the blend that
/// ends there and the blend that begins there both give the second stop, and
/// at 0.66 both give the third. At zero the gradient is the first stop and at
/// one the last.
pub proof fn lemma_gradient_joins()
    ensures
        v3_lerp(stop0(), stop1(), smooth(0, fx_ratio(33, 100), fx_ratio(33, 100))) == stop1(),
        gradient_color(fx_ratio(33, 100)) == stop1(),
        v3_lerp(
            stop1(),
            stop2(),
            smooth(fx_ratio(33, 100), fx_ratio(66, 100), fx_ratio(66, 100)),
        ) == stop2(),
        gradient_color(fx_ratio(66, 100)) == stop2(),
        gradient_color(0) == stop0(),
        gradient_color(4294967296) == stop3(),
{
    lemma_smooth_ends(0, fx_ratio(33, 100));
    lemma_smooth_ends(fx_ratio(33, 100), fx_ratio(66, 100));
    lemma_smooth_ends(fx_ratio(66, 100), 4294967296);
    lemma_lerp_ends(stop0(), stop1());
    lemma_lerp_ends(stop1(), stop2());
    lemma_lerp_ends(stop2(), stop3());
}

/// Below its lower edge the Hermite step is zero, and above its upper edge
/// it is one.
pub proof fn lemma_smooth_outside(edge0: int, edge1: int, x: int)
    requires
        -0x2000_0000_0000_0000 <= edge0 < edge1 <= 0x2000_0000_0000_0000,
        -0x8000_0000_0000_0000 <= x <= 0x7fff_ffff_ffff_ffff,
    ensures
        x <= edge0 ==> smooth(edge0, edge1, x) == 0,
        x >= edge1 ==> smooth(edge0, edge1, x) == 4294967296,
{
    let d = edge1 - edge0;
    let n = fx_sub(x, edge0);
    assert(fx_sub(edge1, edge0) == d);
    if x <= edge0 {
        assert(n <= 0);
        assert((n * 4294967296) / d <= 0) by (nonlinear_arith)
            requires
                n <= 0,
                d > 0,
        ;
        let low = fx_unit(fx_div(n, d));
        assert(low == 0);
        assert(low * low == 0) by (nonlinear_arith)
            requires
                low == 0,
        ;
        assert(0 * fx_sub(12884901888, fx_mul(8589934592, low)) == 0);
    }
    if x >= edge1 {
        assert(n >= d);
        assert((n * 4294967296) / d >= 4294967296) by (nonlinear_arith)
            requires
                n >= d,
                d > 0,
        ;
        let high = fx_unit(fx_div(n, d));
        assert(high == 4294967296);
        assert(high * high == 4294967296 * 4294967296) by (nonlinear_arith)
            requires
                high == 4294967296,
        ;
        assert(8589934592 * high == 8589934592 * 4294967296);
        assert(fx_mul(4294967296, 4294967296) == 4294967296);
    }
}

/// Outside the unit interval the gradient is constant: the first stop at and
/// below zero, the last stop at and above one.
pub proof fn lemma_gradient_tails(t: int)
    requires
        -0x8000_0000_0000_0000 <= t <= 0x7fff_ffff_ffff_ffff,
    ensures
        t <= 0 ==> gradient_color(t) == stop0(),
        t >= 4294967296 ==> gradient_color(t) == stop3(),
{
    lemma_smooth_outside(0, fx_ratio(33, 100), t);
    lemma_smooth_outside(fx_ratio(66, 100), 4294967296, t);
    lemma_lerp_ends(stop0(), stop1());
    lemma_lerp_ends(stop2(), stop3());
}

/// The Hermite polynomial `t^2 (3 - 2 t)` does not leave the unit interval.
pub proof fn lemma_hermite_unit(t: int)
    requires
        0 <= t <= 4294967296,
    ensures
        0 <= fx_mul(fx_mul(t, t), fx_sub(12884901888, fx_mul(8589934592, t))) <= 4294967296,
{
    let one = 4294967296int;
    let m = (t * t) / one;
    let k = 3 * one - 2 * t;
    assert(0 <= t * t <= one * one) by (nonlinear_arith)
        requires
            0 <= t <= one,
    ;
    assert(fx_mul(t, t) == m);
    assert(fx_mul(8589934592, t) == 2 * t);
    assert(fx_sub(12884901888, fx_mul(8589934592, t)) == k);
    let u = one - t;
    let tt = t * t;
    // t^2 (3 - 2 t) <= 1, because 1 - t^2 (3 - 2 t) = (1 - t)^2 (1 + 2 t)
    assert((u * u) * (one + 2 * t) >= 0) by (nonlinear_arith)
        requires
            u >= 0,
            t >= 0,
            one > 0,
    ;
    assert(tt * k <= one * one * one) by (nonlinear_arith)
        requires
            tt == t * t,
            k == 3 * one - 2 * t,
            u == one - t,
            (u * u) * (one + 2 * t) >= 0,
    ;
    assert(0 <= m * k && (m * k) * one <= tt * k) by (nonlinear_arith)
        requires
            m >= 0,
            k >= 0,
            m * one <= tt,
    ;
    assert(m * k <= one * one) by (nonlinear_arith)
        requires
            (m * k) * one <= one * one * one,
            one == 4294967296,
    ;
}

/// The Hermite step lies in the unit interval.
pub proof fn lemma_smooth_unit(edge0: int, edge1: int, x: int)
    ensures
        0 <= smooth(edge0, edge1, x) <= 4294967296,
{
    lemma_hermite_unit(fx_unit(fx_div(fx_sub(x, edge0), fx_sub(edge1, edge0))));
}

/// Whether a colour is warm: red at least green, green at least blue, and
/// all three in the unit interval.
pub open spec fn warm(c: V3) -> bool {
    4294967296 >= c.x >= c.y >= c.z >= 0
}

/// A blend of two warm colours with a weight of the unit interval is warm.
pub proof fn lemma_blend_is_warm(a: V3, b: V3, s: int)
    requires
        warm(a),
        warm(b),
        0 <= s <= 4294967296,
    ensures
        warm(v3_lerp(a, b, s)),
{
    crate::fixed::lemma_lerp_monotonic(a.x, b.x, a.y, b.y, s);
    crate::fixed::lemma_lerp_monotonic(a.y, b.y, a.z, b.z, s);
    crate::fixed::lemma_lerp_monotonic(a.z, b.z, a.z, b.z, s);
}

/// Every colour of the gradient is warm.
pub proof fn lemma_gradient_is_warm(t: int)
    ensures
        warm(gradient_color(t)),
{
    lemma_smooth_unit(0, fx_ratio(33, 100), t);
    lemma_smooth_unit(fx_ratio(33, 100), fx_ratio(66, 100), t);
    lemma_smooth_unit(fx_ratio(66, 100), 4294967296, t);
    lemma_blend_is_warm(stop0(), stop1(), smooth(0, fx_ratio(33, 100), t));
    lemma_blend_is_warm(stop1(), stop2(), smooth(fx_ratio(33, 100), fx_ratio(66, 100), t));
    lemma_blend_is_warm(stop2(), stop3(), smooth(fx_ratio(66, 100), 4294967296, t));
}

/// One channel of the light of a fragment: the base colour lit by half the
/// diffuse term and half the emission, plus the glow.
pub open spec fn lit_channel(base: int, diff: int, emitted: int, glow: int) -> int {
    fx_add(
        fx_add(
            fx_mul(fx_mul(base, diff), 2147483648),
            fx_mul(fx_mul(base, emitted), 2147483648),
        ),
        fx_mul(glow, fx_ratio(8, 10)),
    )
}

/// A channel of the light grows with the base colour and with the glow.
pub proof fn lemma_lit_channel_monotonic(
    base1: int,
    glow1: int,
    base2: int,
    glow2: int,
    diff: int,
    emitted: int,
)
    requires
        base1 >= base2,
        glow1 >= glow2,
        diff >= 0,
        emitted >= 0,
    ensures
        lit_channel(base1, diff, emitted, glow1) >= lit_channel(base2, diff, emitted, glow2),
{
    crate::fixed::lemma_mul_monotonic(base1, base2, diff);
    crate::fixed::lemma_mul_monotonic(base1, base2, emitted);
    crate::fixed::lemma_mul_monotonic(fx_mul(base1, diff), fx_mul(base2, diff), 2147483648);
    crate::fixed::lemma_mul_monotonic(fx_mul(base1, emitted), fx_mul(base2, emitted), 2147483648);
    crate::fixed::lemma_mul_monotonic(glow1, glow2, fx_ratio(8, 10));
}

/// Every fragment of the star is warm: with a relative temperature in the
/// unit interval, its red is at least its green and its green at least its
/// blue, whatever the position, the normal, the light and the time.
pub proof fn lemma_star_fragment_is_warm(vary: VaryingsModel, u: Uniforms)
    requires
        0 <= u.star.temp_norm@ <= 4294967296,
    ensures
        star_fragment(vary, u).r >= star_fragment(vary, u).g,
        star_fragment(vary, u).g >= star_fragment(vary, u).b,
{
    let t = u.time@;
    let view_dir = v3_normalize(v3_sub(u.camera_pos@, vary.pos_ws));
    let intensity = surface(v3_scale(vary.pos_ws, fx_ratio(9, 10)), t, u.star);
    let fl = flare(vary.pos_ws, t, u.star);
    let base_col = emission(intensity, u.star.temp_norm@);
    let emitted = fx_min(
        fx_add(
            fx_mul(fx_pow(intensity, fx_ratio(18, 10)), fx_ratio(7, 10)),
            fx_mul(fl, fx_ratio(9, 10)),
        ),
        fx_ratio(25, 10),
    );
    let diff = fx_add(
        fx_ratio(3, 10),
        fx_mul(fx_ratio(7, 10), lambert_term(vary.nrm_ws, u.light_dir@)),
    );
    let rim = rim_term(vary.nrm_ws, view_dir, fx_ratio(25, 10));
    let glow = fx_mul(rim, 2147483648);
    let glow_col = v3_scale(
        V3 { x: 4294967296, y: fx_ratio(65, 100), z: fx_ratio(25, 100) },
        glow,
    );
    // the base colour is warm
    lemma_gradient_is_warm(intensity);
    crate::fixed::lemma_mul_monotonic(4294967296, u.star.temp_norm@, fx_ratio(3, 10));
    crate::fixed::lemma_mul_monotonic(u.star.temp_norm@, 0, fx_ratio(3, 10));
    lemma_blend_is_warm(
        gradient_color(intensity),
        V3 { x: 4294967296, y: fx_ratio(98, 100), z: fx_ratio(92, 100) },
        fx_mul(u.star.temp_norm@, fx_ratio(3, 10)),
    );
    assert(warm(base_col));
    // the factors are not negative
    crate::fixed::lemma_mul_monotonic(lambert_term(vary.nrm_ws, u.light_dir@), 0, fx_ratio(7, 10));
    assert(diff >= 0);
    crate::elementary::lemma_pow_sign(intensity, fx_ratio(18, 10));
    crate::fixed::lemma_mul_monotonic(fx_pow(intensity, fx_ratio(18, 10)), 0, fx_ratio(7, 10));
    crate::fixed::lemma_mul_monotonic(fl, 0, fx_ratio(9, 10));
    assert(emitted >= 0);
    crate::elementary::lemma_pow_sign(
        fx_sub(4294967296, fx_max(v3_dot(v3_normalize(vary.nrm_ws), v3_normalize(view_dir)), 0)),
        fx_ratio(25, 10),
    );
    crate::fixed::lemma_mul_monotonic(rim, 0, 2147483648);
    assert(glow >= 0);
    // the glow is warm
    crate::fixed::lemma_mul_monotonic(4294967296, fx_ratio(65, 100), glow);
    crate::fixed::lemma_mul_monotonic(fx_ratio(65, 100), fx_ratio(25, 100), glow);
    // so is the light
    lemma_lit_channel_monotonic(base_col.x, glow_col.x, base_col.y, glow_col.y, diff, emitted);
    lemma_lit_channel_monotonic(base_col.y, glow_col.y, base_col.z, glow_col.z, diff, emitted);
    let light = star_light(vary, u);
    assert(light.x == lit_channel(base_col.x, diff, emitted, glow_col.x));
    assert(light.y == lit_channel(base_col.y, diff, emitted, glow_col.y));
    assert(light.z == lit_channel(base_col.z, diff, emitted, glow_col.z));
    assert(light.x >= light.y >= light.z);
}

/// In every colour of the gradient red lies at least 0.15 above blue.
pub proof fn lemma_gradient_gap(t: int)
    ensures
        gradient_color(t).x - gradient_color(t).z >= 644245095,
{
    lemma_smooth_unit(0, fx_ratio(33, 100), t);
    lemma_smooth_unit(fx_ratio(33, 100), fx_ratio(66, 100), t);
    lemma_smooth_unit(fx_ratio(66, 100), 4294967296, t);
    crate::fixed::lemma_lerp_gap(
        stop0().x,
        stop1().x,
        stop0().z,
        stop1().z,
        smooth(0, fx_ratio(33, 100), t),
        644245095,
    );
    crate::fixed::lemma_lerp_gap(
        stop1().x,
        stop2().x,
        stop1().z,
        stop2().z,
        smooth(fx_ratio(33, 100), fx_ratio(66, 100), t),
        644245095,
    );
    crate::fixed::lemma_lerp_gap(
        stop2().x,
        stop3().x,
        stop2().z,
        stop3().z,
        smooth(fx_ratio(66, 100), 4294967296, t),
        644245095,
    );
}

/// The part of a channel of the light that the diffuse term lights grows
/// with the base colour by at least an eighth of what the base colour grows
/// by, less two raw steps, where the diffuse term is at least 0.3.
pub proof fn lemma_diffuse_gap(base1: int, base2: int, diff: int, gap: int)
    requires
        0 <= base2 <= base1 <= 4294967296,
        base1 - base2 >= gap,
        gap >= 0,
        1288490188 <= diff <= 0x7fff_ffff_ffff_ffff,
    ensures
        fx_mul(fx_mul(base1, diff), 2147483648) - fx_mul(fx_mul(base2, diff), 2147483648) >= gap
            / 8 - 2,
        fx_mul(fx_mul(base2, diff), 2147483648) >= 0,
{
    let one = 4294967296int;
    let p1 = (base1 * diff) / one;
    let p2 = (base2 * diff) / one;
    assert(0 <= base2 * diff <= base1 * diff <= one * diff) by (nonlinear_arith)
        requires
            0 <= base2 <= base1 <= one,
            diff >= 0,
    ;
    assert(fx_mul(base1, diff) == p1 && fx_mul(base2, diff) == p2);
    assert(base1 * diff - base2 * diff >= gap * 1288490188) by (nonlinear_arith)
        requires
            base1 - base2 >= gap,
            gap >= 0,
            diff >= 1288490188,
    ;
    assert(one * p1 >= base1 * diff - (one - 1));
    assert(one * p2 <= base2 * diff);
    assert(p1 * 2147483648 == 2147483648 * p1 && p2 * 2147483648 == 2147483648 * p2);
}

/// In every fragment of the star red exceeds blue, unless blue is full: with
/// a relative temperature in the unit interval, only a fragment that is
/// saturated in all its channels has red equal to blue.
pub proof fn lemma_star_red_exceeds_blue(vary: VaryingsModel, u: Uniforms)
    requires
        0 <= u.star.temp_norm@ <= 4294967296,
    ensures
        star_fragment(vary, u).b < 255 ==> star_fragment(vary, u).r > star_fragment(vary, u).b,
{
    let t = u.time@;
    let view_dir = v3_normalize(v3_sub(u.camera_pos@, vary.pos_ws));
    let intensity = surface(v3_scale(vary.pos_ws, fx_ratio(9, 10)), t, u.star);
    let fl = flare(vary.pos_ws, t, u.star);
    let base_col = emission(intensity, u.star.temp_norm@);
    let emitted = fx_min(
        fx_add(
            fx_mul(fx_pow(intensity, fx_ratio(18, 10)), fx_ratio(7, 10)),
            fx_mul(fl, fx_ratio(9, 10)),
        ),
        fx_ratio(25, 10),
    );
    let diff = fx_add(
        fx_ratio(3, 10),
        fx_mul(fx_ratio(7, 10), lambert_term(vary.nrm_ws, u.light_dir@)),
    );
    let rim = rim_term(vary.nrm_ws, view_dir, fx_ratio(25, 10));
    let glow = fx_mul(rim, 2147483648);
    let glow_col = v3_scale(
        V3 { x: 4294967296, y: fx_ratio(65, 100), z: fx_ratio(25, 100) },
        glow,
    );
    let weight = fx_mul(u.star.temp_norm@, fx_ratio(3, 10));
    lemma_gradient_is_warm(intensity);
    lemma_gradient_gap(intensity);
    crate::fixed::lemma_mul_monotonic(4294967296, u.star.temp_norm@, fx_ratio(3, 10));
    crate::fixed::lemma_mul_monotonic(u.star.temp_norm@, 0, fx_ratio(3, 10));
    let hot = V3 { x: 4294967296, y: fx_ratio(98, 100), z: fx_ratio(92, 100) };
    lemma_blend_is_warm(gradient_color(intensity), hot, weight);
    crate::fixed::lemma_lerp_gap(
        gradient_color(intensity).x,
        hot.x,
        gradient_color(intensity).z,
        hot.z,
        weight,
        343597384,
    );
    assert(warm(base_col));
    assert(base_col.x - base_col.z >= 343597384);
    crate::fixed::lemma_mul_monotonic(lambert_term(vary.nrm_ws, u.light_dir@), 0, fx_ratio(7, 10));
    assert(diff >= 1288490188);
    crate::elementary::lemma_pow_sign(intensity, fx_ratio(18, 10));
    crate::fixed::lemma_mul_monotonic(fx_pow(intensity, fx_ratio(18, 10)), 0, fx_ratio(7, 10));
    crate::fixed::lemma_mul_monotonic(fl, 0, fx_ratio(9, 10));
    assert(emitted >= 0);
    crate::elementary::lemma_pow_sign(
        fx_sub(4294967296, fx_max(v3_dot(v3_normalize(vary.nrm_ws), v3_normalize(view_dir)), 0)),
        fx_ratio(25, 10),
    );
    crate::fixed::lemma_mul_monotonic(rim, 0, 2147483648);
    assert(glow >= 0);
    crate::fixed::lemma_mul_monotonic(4294967296, fx_ratio(25, 100), glow);
    crate::fixed::lemma_mul_monotonic(fx_ratio(25, 100), 0, glow);
    // the three parts of a channel
    let ax = fx_mul(fx_mul(base_col.x, diff), 2147483648);
    let az = fx_mul(fx_mul(base_col.z, diff), 2147483648);
    let bx = fx_mul(fx_mul(base_col.x, emitted), 2147483648);
    let bz = fx_mul(fx_mul(base_col.z, emitted), 2147483648);
    let cx = fx_mul(glow_col.x, fx_ratio(8, 10));
    let cz = fx_mul(glow_col.z, fx_ratio(8, 10));
    lemma_diffuse_gap(base_col.x, base_col.z, diff, 343597384);
    crate::fixed::lemma_mul_monotonic(base_col.x, base_col.z, emitted);
    crate::fixed::lemma_mul_monotonic(base_col.z, 0, emitted);
    crate::fixed::lemma_mul_monotonic(fx_mul(base_col.x, emitted), fx_mul(base_col.z, emitted), 2147483648);
    crate::fixed::lemma_mul_monotonic(fx_mul(base_col.z, emitted), 0, 2147483648);
    crate::fixed::lemma_mul_monotonic(glow_col.x, glow_col.z, fx_ratio(8, 10));
    crate::fixed::lemma_mul_monotonic(glow_col.z, 0, fx_ratio(8, 10));
    assert(ax - az >= 42949671);
    assert(bx >= bz >= 0);
    assert(cx >= cz >= 0);
    let light = star_light(vary, u);
    assert(light.x == fx_add(fx_add(ax, bx), cx));
    assert(light.z == fx_add(fx_add(az, bz), cz));
}

/// No fragment of the star has a colour whose blue exceeds its red: where a
/// frame was cleared to such a colour, every pixel the star has drawn on
/// differs from it.
pub proof fn lemma_star_differs_from_cold(vary: VaryingsModel, u: Uniforms, clear: Color)
    requires
        0 <= u.star.temp_norm@ <= 4294967296,
        clear.b > clear.r,
    ensures
        star_fragment(vary, u) != clear,
{
    lemma_star_fragment_is_warm(vary, u);
}

/// Whether a colour is one the star can give a fragment: red at least green,
/// green at least blue, and red above blue unless blue is full.
pub open spec fn star_coloured(c: Color) -> bool {
    c.r >= c.g && c.g >= c.b && (c.b < 255 ==> c.r > c.b)
}

/// Every fragment of the star has a colour of the star.
pub proof fn lemma_star_colours(vary: VaryingsModel, u: Uniforms)
    requires
        0 <= u.star.temp_norm@ <= 4294967296,
    ensures
        star_coloured(Star.fragment_color(vary, u)),
{
    lemma_star_fragment_is_warm(vary, u);
    lemma_star_red_exceeds_blue(vary, u);
}

/// After a triangle of the star has been drawn on a frame, every pixel
/// either still holds the colour and the depth it held before or holds a
/// colour of the star.
pub proof fn lemma_star_triangle_is_warm(
    f: FrameModel,
    t: ScreenTriangleModel,
    u: Uniforms,
    i: int,
)
    requires
        0 <= u.star.temp_norm@ <= 4294967296,
        0 <= i < f.color.len(),
        f.depth.len() == f.color.len(),
    ensures
        ({
            let g = frame_after_triangle(f, t, Star, u);
            (g.color[i] == f.color[i] && g.depth[i] == f.depth[i]) || star_coloured(g.color[i])
        }),
{
    lemma_star_colours(varyings_at(t, i % (f.width as int), i / (f.width as int)), u);
}

/// After the star has been drawn on a frame, every pixel either still holds
/// the colour and the depth it held before or holds a colour of the star:
/// whatever the mesh, the camera and the time, a pixel the star is seen at
/// has red above blue, unless it is saturated.
pub proof fn lemma_star_frame_is_warm(
    f: FrameModel,
    vertices: Seq<Vertex>,
    indices: Seq<u32>,
    u: Uniforms,
    viewport: M4,
    count: nat,
    i: int,
)
    requires
        0 <= u.star.temp_norm@ <= 4294967296,
        0 <= i < f.color.len(),
        f.depth.len() == f.color.len(),
    ensures
        ({
            let g = frame_after_mesh(f, vertices, indices, Star, u, viewport, count);
            (g.color[i] == f.color[i] && g.depth[i] == f.depth[i]) || star_coloured(g.color[i])
        }),
    decreases count,
{
    if count > 0 {
        lemma_star_frame_is_warm(f, vertices, indices, u, viewport, (count - 1) as nat, i);
        lemma_mesh_keeps_shape(f, vertices, indices, Star, u, viewport, (count - 1) as nat);
        let before = frame_after_mesh(f, vertices, indices, Star, u, viewport, (count - 1) as nat);
        match mesh_triangle(vertices, indices, Star, u, viewport, count - 1) {
            Some(t) => {
                lemma_star_triangle_is_warm(before, t, u, i);
            },
            None => {},
        }
    }
}

/// The star shows wherever it lies in front of what the frame held: a pixel
/// that a front-facing triangle of the mesh covers, nearer than the depth
/// the frame started with, ends with a colour of the star; and where the
/// frame was cleared to a colour whose blue exceeds its red, that pixel
/// differs from the clear colour.
pub proof fn lemma_star_shows(
    f: FrameModel,
    vertices: Seq<Vertex>,
    indices: Seq<u32>,
    u: Uniforms,
    viewport: M4,
    count: nat,
    k: int,
    i: int,
)
    requires
        0 <= u.star.temp_norm@ <= 4294967296,
        f.width > 0,
        f.color.len() == f.width * f.height,
        f.depth.len() == f.width * f.height,
        0 <= k < count,
        0 <= i < f.width * f.height,
        mesh_triangle(vertices, indices, Star, u, viewport, k) is Some,
        covers(
            mesh_triangle(vertices, indices, Star, u, viewport, k)->0,
            i % (f.width as int),
            i / (f.width as int),
        ),
        depth_at(
            mesh_triangle(vertices, indices, Star, u, viewport, k)->0,
            i % (f.width as int),
            i / (f.width as int),
        ) < f.depth[i],
    ensures
        star_coloured(frame_after_mesh(f, vertices, indices, Star, u, viewport, count).color[i]),
        f.color[i].b > f.color[i].r ==> frame_after_mesh(
            f,
            vertices,
            indices,
            Star,
            u,
            viewport,
            count,
        ).color[i] != f.color[i],
{
    lemma_star_frame_is_warm(f, vertices, indices, u, viewport, count, i);
    lemma_mesh_depth_bound(f, vertices, indices, Star, u, viewport, count, k, i);
}

/// Hermite step from zero at `edge0` to one at `edge1`.
pub fn smoothstep(edge0: Fx, edge1: Fx, x: Fx) -> (r: Fx)
    ensures
        r@ == smooth(edge0@, edge1@, x@),
{
    let t = x.sub(edge0).div(edge1.sub(edge0)).unit();
    t.mul(t).mul(Fx::from_int(3).sub(Fx::from_int(2).mul(t)))
}

/// The vector `(x / 100, y / 100, z / 100)`.
fn hundredths(x: i64, y: i64, z: i64) -> (r: Vec3)
    ensures
        r@ == (V3 { x: fx_ratio(x as int, 100), y: fx_ratio(y as int, 100), z: fx_ratio(z as int, 100) }),
{
    Vec3::new(Fx::ratio(x, 100), Fx::ratio(y, 100), Fx::ratio(z, 100))
}

/// The offset `(t * a, t * b, t * c) / 100`.
fn drift_by(t: Fx, a: i64, b: i64, c: i64) -> (r: Vec3)
    ensures
        r@ == drift(t@, a as int, b as int, c as int),
{
    Vec3::new(t.mul(Fx::ratio(a, 100)), t.mul(Fx::ratio(b, 100)), t.mul(Fx::ratio(c, 100)))
}

impl Star {
    /// The colour of the surface at intensity `t`.
    ///
    /// Four stops, from deep orange over warm orange and gold to warm white,
    /// are joined by smooth blends; the blends change at 0.33 and 0.66, where
    /// the one that ends and the one that begins meet in the same stop.
    pub fn gradient(&self, t: Fx) -> (r: Vec3)
        ensures
            r@ == gradient_color(t@),
    {
        let c0 = hundredths(85, 25, 5);
        let c1 = hundredths(100, 50, 10);
        let c2 = hundredths(100, 80, 30);
        let c3 = hundredths(100, 95, 85);
        let first = Fx::ratio(33, 100);
        let second = Fx::ratio(66, 100);
        if t.lt(first) {
            lerp3(c0, c1, smoothstep(Fx::zero(), first, t))
        } else if t.lt(second) {
            lerp3(c1, c2, smoothstep(first, second, t))
        } else {
            lerp3(c2, c3, smoothstep(second, Fx::one(), t))
        }
    }

    /// The gradient colour at `intensity`, moved towards white with the
    /// relative temperature.
    pub fn emission_color(&self, intensity: Fx, temp_norm: Fx) -> (r: Vec3)
        ensures
            r@ == emission(intensity@, temp_norm@),
    {
        let base = self.gradient(intensity);
        lerp3(base, hundredths(100, 98, 92), temp_norm.mul(Fx::ratio(3, 10)))
    }

    /// Intensity of the surface at the world position `p_ws` and time `t`, in
    /// `[0, 1]`.
    pub fn surface_intensity(&self, p_ws: Vec3, t: Fx, params: &StarParams) -> (r: Fx)
        ensures
            r@ == surface(p_ws@, t@, *params),
            0 <= r@ <= 4294967296,
    {
        let noise_type = params.noise_type;
        let scale = params.noise_scale;
        let two = Fx::from_int(2);
        let n1 = fbm_3d_type(
            p_ws.add(drift_by(t, 8, 5, -3)),
            4,
            two,
            Fx::ratio(55, 100),
            scale,
            noise_type,
        );
        let n2 = fbm_3d_type(
            p_ws.scale(Fx::ratio(18, 10)).add(drift_by(t, -6, 9, 3)),
            3,
            two,
            Fx::ratio(55, 100),
            scale.mul(Fx::ratio(8, 10)),
            noise_type,
        );
        let n3 = fbm_3d_type(
            p_ws.scale(Fx::ratio(32, 10)).add(drift_by(t, 20, -15, 12)),
            2,
            two,
            Fx::ratio(1, 2),
            scale.mul(Fx::ratio(6, 10)),
            noise_type,
        );
        let combo = n1.mul(Fx::ratio(1, 2)).add(n2.mul(Fx::ratio(3, 10))).add(
            n3.mul(Fx::ratio(2, 10)),
        );
        let pulsate = t.mul(Fx::ratio(4, 10)).sin().mul(Fx::ratio(1, 10)).add(Fx::ratio(9, 10));
        saturate(combo.mul(pulsate))
    }

    /// The flare signal at the world position `p_ws` and time `t`, in `[0, 1]`.
    pub fn flare_term(&self, p_ws: Vec3, t: Fx, params: &StarParams) -> (r: Fx)
        ensures
            r@ == flare(p_ws@, t@, *params),
            0 <= r@ <= 4294967296,
    {
        let at = p_ws.scale(Fx::ratio(45, 10)).add(drift_by(t, 60, -40, 30));
        let base = if params.use_cellular_flares {
            cellular_3d(at)
        } else {
            fbm_3d_type(
                at,
                3,
                Fx::from_int(2),
                Fx::ratio(6, 10),
                params.noise_scale.mul(Fx::ratio(8, 10)),
                params.noise_type,
            )
        };
        let ridge = base.mul(Fx::ratio(15, 10)).sub(Fx::ratio(75, 100)).abs();
        saturate(ridge.pow(Fx::ratio(25, 10)).mul(params.flare_intensity).mul(Fx::ratio(6, 10)))
    }

    /// The factor by which a vertex at `pos` is moved along its radius.
    fn displacement(&self, pos: Vec3, t: Fx, params: &StarParams) -> (r: Fx)
        ensures
            r@ == radial_scale(pos@, t@, *params),
    {
        let f = fbm_3d_type(
            pos.normalize().add(drift_by(t, 15, -12, 8)),
            3,
            Fx::from_int(2),
            Fx::ratio(6, 10),
            params.noise_scale.mul(Fx::ratio(15, 10)),
            params.noise_type,
        );
        let ridge = f.mul(Fx::ratio(18, 10)).sub(Fx::ratio(9, 10)).abs().pow(Fx::ratio(35, 10)).mul(
            Fx::ratio(8, 100),
        ).mul(params.flare_intensity);
        let wave = t.mul(Fx::ratio(6, 10)).add(pos.length().mul(Fx::from_int(4))).sin().mul(
            Fx::ratio(15, 1000),
        );
        Fx::one().add(ridge).add(wave)
    }

    /// The light of a fragment before quantization.
    fn light(&self, vary: &Varyings, u: &Uniforms) -> (r: Vec3)
        ensures
            r@ == star_light(vary@, *u),
    {
        let t = u.time;
        let view_dir = u.camera_pos.sub(vary.pos_ws).normalize();
        let intensity = self.surface_intensity(vary.pos_ws.scale(Fx::ratio(9, 10)), t, &u.star);
        let fl = self.flare_term(vary.pos_ws, t, &u.star);
        let base_col = self.emission_color(intensity, u.star.temp_norm);
        let emitted = intensity.pow(Fx::ratio(18, 10)).mul(Fx::ratio(7, 10)).add(
            fl.mul(Fx::ratio(9, 10)),
        ).min(Fx::ratio(25, 10));
        let diff = Fx::ratio(3, 10).add(Fx::ratio(7, 10).mul(lambert(vary.nrm_ws, u.light_dir)));
        let glow = rim(vary.nrm_ws, view_dir, Fx::ratio(25, 10)).mul(Fx::ratio(1, 2));
        let glow_col = hundredths(100, 65, 25).scale(glow);
        base_col.scale(diff).scale(Fx::ratio(1, 2)).add(
            base_col.scale(emitted).scale(Fx::ratio(1, 2)),
        ).add(glow_col.scale(Fx::ratio(8, 10)))
    }

}

impl Shader for Star {
    open spec fn vertex_out(&self, vin: VertexInModel, u: Uniforms) -> VertexOutModel {
        star_vertex(vin, u)
    }

    open spec fn fragment_color(&self, vary: VaryingsModel, u: Uniforms) -> Color {
        star_fragment(vary, u)
    }

    open spec fn style_name(&self) -> Seq<char> {
        "Star"@
    }

    fn name(&self) -> (r: &'static str) {
        "Star"
    }

    fn vertex(&self, vin: VertexIn, u: &Uniforms) -> (out: VertexOut)
        ensures
            out@.uv == vin@.uv,
            out@.nrm_ws == v3_normalize(star_normal(vin@, *u)),
            v3_moderate(star_normal(vin@, *u)) && star_normal(vin@, *u) != (V3 {
                x: 0,
                y: 0,
                z: 0,
            }) ==> 4294967296 - 4 <= v3_length(out@.nrm_ws) <= 4294967296 + 512,
    {
        proof {
            if v3_moderate(star_normal(vin@, *u)) && star_normal(vin@, *u) != (V3 {
                x: 0,
                y: 0,
                z: 0,
            }) {
                crate::math::vec::lemma_normalize_is_unit(star_normal(vin@, *u));
            }
        }
        let t = u.time;
        let model = u.model.mul(rotation_y(t.mul(u.star.rot_speed)));
        let displaced = Vec4::from3(
            vin.pos.scale(self.displacement(vin.pos, t, &u.star)),
            Fx::one(),
        );
        VertexOut {
            clip_pos: u.proj.mul(u.view).mul(model).mul_vec(displaced),
            pos_ws: model.mul_vec(displaced).xyz(),
            nrm_ws: model.mul_vec(Vec4::from3(vin.nrm, Fx::zero())).xyz().normalize(),
            uv: vin.uv,
        }
    }

    fn fragment(&self, vary: &Varyings, u: &Uniforms) -> (c: Color)
        ensures
            c.a == 255,
            0 <= u.star.temp_norm@ <= 4294967296 ==> c.r >= c.g && c.g >= c.b,
            0 <= u.star.temp_norm@ <= 4294967296 && c.b < 255 ==> c.r > c.b,
    {
        proof {
            if 0 <= u.star.temp_norm@ <= 4294967296 {
                lemma_star_fragment_is_warm(vary@, *u);
                lemma_star_red_exceeds_blue(vary@, *u);
            }
        }
        to_color(self.light(vary, u).clamp01())
    }
}

} // verus!
