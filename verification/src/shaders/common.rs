//! Helpers shared by the shading styles.

use vstd::prelude::*;
use crate::elementary::fx_pow;
use crate::fixed::{fx_add, fx_div, fx_lerp, fx_max, fx_mul, fx_sub, fx_unit, Fx};
use crate::math::noise::{
    amplitude_sum, lemma_fbm_single_octave, lemma_noise_is_raw, lemma_octave_sum_bounded,
    lemma_quotient_unit, noise, noise_3d, octave_amplitude, octave_frequency, octave_sum,
    NoiseType,
};
use crate::math::vec::{v3_add, v3_dot, v3_lerp, v3_normalize, v3_scale, Vec3, V3};
use crate::renderer::buffers::{channel_level, Color};

verus! {

/// `x` limited to the unit interval.
pub fn saturate(x: Fx) -> (r: Fx)
    ensures
        r@ == fx_unit(x@),
        0 <= r@ <= 4294967296,
{
    x.unit()
}

/// The blend `a + (b - a) * t`.
pub fn lerp(a: Fx, b: Fx, t: Fx) -> (r: Fx)
    ensures
        r@ == fx_lerp(a@, b@, t@),
{
    a.lerp(b, t)
}

/// The componentwise blend `a + (b - a) * t`.
pub fn lerp3(a: Vec3, b: Vec3, t: Fx) -> (r: Vec3)
    ensures
        r@ == v3_lerp(a@, b@, t@),
{
    Vec3::new(lerp(a.x, b.x, t), lerp(a.y, b.y, t), lerp(a.z, b.z, t))
}

/// The opaque colour whose red, green and blue are the components of `v`,
/// each limited to the unit interval and quantized to eight bits.
pub fn to_color(v: Vec3) -> (c: Color)
    ensures
        c == (Color {
            r: channel_level(v@.x) as u8,
            g: channel_level(v@.y) as u8,
            b: channel_level(v@.z) as u8,
            a: 255,
        }),
{
    Color::from_unit_rgb(v.x, v.y, v.z)
}

/// The diffuse term of a surface with normal `n` lit from direction `l`: the
/// cosine of the angle between them, and zero where the light is behind.
pub open spec fn lambert_term(n: V3, l: V3) -> int {
    fx_max(v3_dot(v3_normalize(n), v3_normalize(l)), 0)
}

/// The rim term: one minus the cosine between normal and view direction,
/// raised to `power`.
pub open spec fn rim_term(n: V3, view: V3, power: int) -> int {
    fx_pow(fx_sub(4294967296, fx_max(v3_dot(v3_normalize(n), v3_normalize(view)), 0)), power)
}

/// The specular term: the cosine between the normal and the direction half
/// way between light and view, raised to `power`.
pub open spec fn specular_term(n: V3, l: V3, view: V3, power: int) -> int {
    fx_pow(fx_max(v3_dot(n, v3_normalize(v3_add(l, view))), 0), power)
}

/// Diffuse lighting of a surface with normal `n` from the direction `l`.
pub fn lambert(n: Vec3, l: Vec3) -> (r: Fx)
    ensures
        r@ == lambert_term(n@, l@),
        r@ >= 0,
{
    n.normalize().dot(l.normalize()).max(Fx::zero())
}

/// Brightening towards the silhouette: large where the normal `n` is at a
/// right angle to the view direction.
pub fn rim(n: Vec3, view: Vec3, power: Fx) -> (r: Fx)
    ensures
        r@ == rim_term(n@, view@, power@),
{
    Fx::one().sub(n.normalize().dot(view.normalize()).max(Fx::zero())).pow(power)
}

/// The highlight of a light from direction `l` seen from direction `view`.
pub fn specular(n: Vec3, l: Vec3, view: Vec3, power: Fx) -> (r: Fx)
    ensures
        r@ == specular_term(n@, l@, view@, power@),
{
    let h = l.add(view).normalize();
    n.dot(h).max(Fx::zero()).pow(power)
}

/// Fractal sum of `max(oct, 0)` octaves of the noise `kind`, divided by the
/// sum of the amplitudes used or by the smallest positive scalar, whichever
/// is larger.
pub open spec fn fbm_typed(p: V3, oct: int, lac: int, gain: int, scale: int, kind: NoiseType) -> int {
    let n = if oct < 0 { 0nat } else { oct as nat };
    fx_div(octave_sum(p, n, lac, gain, scale, kind), fx_max(amplitude_sum(n, gain), 1))
}

/// With a single octave the fractal sum is the noise itself, evaluated at
/// `p` times the base scale, whatever the lacunarity and the gain.
pub proof fn lemma_fbm_typed_single_octave(
    p: V3,
    lac: int,
    gain: int,
    scale: int,
    kind: NoiseType,
)
    ensures
        fbm_typed(p, 1, lac, gain, scale, kind) == noise(v3_scale(p, scale), kind),
{
    lemma_fbm_single_octave(p, lac, gain, scale, kind);
    lemma_noise_is_raw(v3_scale(p, scale), kind);
    assert(octave_frequency(0, lac, scale) == scale);
    assert(octave_amplitude(0, gain) == 4294967296);
    assert(octave_sum(p, 0, lac, gain, scale, kind) == 0);
    assert(amplitude_sum(0, gain) == 0);
    assert(amplitude_sum(1, gain) == 4294967296);
}

/// Fractal sum of noise of an explicit kind.
///
/// `oct` octaves are summed; octave `k` evaluates the noise at `p` times
/// `scale * lac^k` and weighs it by `gain^k`. The sum is divided by the sum of
/// the weights. A count of zero or less gives zero.
pub fn fbm_3d_type(p: Vec3, oct: i32, lac: Fx, gain: Fx, scale: Fx, noise_type: NoiseType) -> (r:
    Fx)
    ensures
        r@ == fbm_typed(p@, oct as int, lac@, gain@, scale@, noise_type),
        oct == 1 ==> r@ == noise(v3_scale(p@, scale@), noise_type),
        gain@ >= 0 && noise_type != NoiseType::Simplex ==> 0 <= r@ <= 4294967296,
{
    proof {
        lemma_fbm_typed_single_octave(p@, lac@, gain@, scale@, noise_type);
        if gain@ >= 0 && noise_type != NoiseType::Simplex {
            let n = if oct < 0 { 0nat } else { oct as nat };
            lemma_octave_sum_bounded(p@, n, lac@, gain@, scale@, noise_type);
            lemma_quotient_unit(
                octave_sum(p@, n, lac@, gain@, scale@, noise_type),
                fx_max(amplitude_sum(n, gain@), 1),
            );
        }
    }
    let mut freq = scale;
    let mut amp = Fx::one();
    let mut sum = Fx::zero();
    let mut norm = Fx::zero();
    let count: u32 = if oct < 0 { 0 } else { oct as u32 };
    let mut k: u32 = 0;
    while k < count
        invariant
            k <= count,
            freq@ == octave_frequency(k as nat, lac@, scale@),
            amp@ == octave_amplitude(k as nat, gain@),
            sum@ == octave_sum(p@, k as nat, lac@, gain@, scale@, noise_type),
            norm@ == amplitude_sum(k as nat, gain@),
        decreases count - k,
    {
        sum = sum.add(noise_3d(p.scale(freq), noise_type).mul(amp));
        norm = norm.add(amp);
        freq = freq.mul(lac);
        amp = amp.mul(gain);
        k = k + 1;
    }
    sum.div(norm.max(Fx { raw: 1 }))
}

/// Fractal sum of value noise.
pub fn fbm_3d(p: Vec3, oct: i32, lac: Fx, gain: Fx, scale: Fx) -> (r: Fx)
    ensures
        r@ == fbm_typed(p@, oct as int, lac@, gain@, scale@, NoiseType::Perlin),
{
    fbm_3d_type(p, oct, lac, gain, scale, NoiseType::Perlin)
}

/// The latitude of a unit direction, from zero at the south pole to one at
/// the north pole.
pub fn latitude(v: Vec3) -> (r: Fx)
    ensures
        r@ == fx_add(fx_mul(v@.y, 2147483648), 2147483648),
{
    v.y.mul(Fx { raw: 2147483648 }).add(Fx { raw: 2147483648 })
}

} // verus!
