//! The planet styles: a body that shows its base colour.

use vstd::prelude::*;
use crate::fixed::{fx_add, fx_mul, fx_ratio, Fx};
use crate::math::mat::{m4_mul, m4_mul_vec, m4_rotation_y, rotation_y};
use crate::math::vec::{
    lemma_normalize_is_unit, v3_length, v3_moderate, v3_normalize, v3_scale, v4_from, v4_xyz,
    Vec3, Vec4, V3,
};
use crate::renderer::buffers::{channel_level, level_intensity, Color};
use crate::renderer::pipeline::{Shader, VertexIn, VertexInModel, VertexOut, VertexOutModel};
use crate::renderer::raster::{Varyings, VaryingsModel};
use crate::renderer::uniforms::Uniforms;
use crate::shaders::common::{lambert, lambert_term, to_color};
use crate::shaders::{kind_name, ShaderKind};

verus! {

/// A planet style. `Flat` shows the base colour as it is; every other kind
/// shows it lit from the light direction, with an ambient floor.
#[derive(Clone, Copy, Debug, PartialEq, Eq, Structural)]
pub struct Surface {
    pub kind: ShaderKind,
}

/// The normal of a vertex of a planet in world space, before it is brought
/// to unit length.
pub open spec fn surface_normal(vin: VertexInModel, u: Uniforms) -> V3 {
    let model = m4_mul(u.model@, m4_rotation_y(fx_mul(u.time@, u.planet.rotation_speed@)));
    v4_xyz(m4_mul_vec(model, v4_from(vin.nrm, 0)))
}

/// The vertex stage of the planet styles: the model is turned about its axis
/// by the time times the rotation speed and taken to world and clip space.
pub open spec fn surface_vertex(vin: VertexInModel, u: Uniforms) -> VertexOutModel {
    let model = m4_mul(u.model@, m4_rotation_y(fx_mul(u.time@, u.planet.rotation_speed@)));
    let pos = v4_from(vin.pos, 4294967296);
    VertexOutModel {
        clip_pos: m4_mul_vec(m4_mul(m4_mul(u.proj@, u.view@), model), pos),
        pos_ws: v4_xyz(m4_mul_vec(model, pos)),
        nrm_ws: v3_normalize(v4_xyz(m4_mul_vec(model, v4_from(vin.nrm, 0)))),
        uv: vin.uv,
    }
}

/// The colour of a fragment of a planet style: the base colour, for every
/// kind but `Flat` times `0.3 + 0.7 * diffuse`.
pub open spec fn surface_fragment(kind: ShaderKind, vary: VaryingsModel, u: Uniforms) -> Color {
    let base = V3 {
        x: level_intensity(u.planet.base_color.r as int),
        y: level_intensity(u.planet.base_color.g as int),
        z: level_intensity(u.planet.base_color.b as int),
    };
    let lit = if kind == ShaderKind::Flat {
        base
    } else {
        v3_scale(
            base,
            fx_add(
                fx_ratio(3, 10),
                fx_mul(fx_ratio(7, 10), lambert_term(vary.nrm_ws, u.light_dir@)),
            ),
        )
    };
    Color {
        r: channel_level(lit.x) as u8,
        g: channel_level(lit.y) as u8,
        b: channel_level(lit.z) as u8,
        a: 255,
    }
}

impl Shader for Surface {
    open spec fn vertex_out(&self, vin: VertexInModel, u: Uniforms) -> VertexOutModel {
        surface_vertex(vin, u)
    }

    open spec fn fragment_color(&self, vary: VaryingsModel, u: Uniforms) -> Color {
        surface_fragment(self.kind, vary, u)
    }

    open spec fn style_name(&self) -> Seq<char> {
        kind_name(self.kind)
    }

    fn name(&self) -> (r: &'static str) {
        self.kind.name()
    }

    fn vertex(&self, vin: VertexIn, u: &Uniforms) -> (out: VertexOut)
        ensures
            out@.uv == vin@.uv,
            out@.nrm_ws == v3_normalize(surface_normal(vin@, *u)),
            v3_moderate(surface_normal(vin@, *u)) && surface_normal(vin@, *u) != (V3 {
                x: 0,
                y: 0,
                z: 0,
            }) ==> 4294967296 - 4 <= v3_length(out@.nrm_ws) <= 4294967296 + 512,
    {
        proof {
            if v3_moderate(surface_normal(vin@, *u)) && surface_normal(vin@, *u) != (V3 {
                x: 0,
                y: 0,
                z: 0,
            }) {
                lemma_normalize_is_unit(surface_normal(vin@, *u));
            }
        }
        let model = u.model.mul(rotation_y(u.time.mul(u.planet.rotation_speed)));
        let pos = Vec4::from3(vin.pos, Fx::one());
        VertexOut {
            clip_pos: u.proj.mul(u.view).mul(model).mul_vec(pos),
            pos_ws: model.mul_vec(pos).xyz(),
            nrm_ws: model.mul_vec(Vec4::from3(vin.nrm, Fx::zero())).xyz().normalize(),
            uv: vin.uv,
        }
    }

    fn fragment(&self, vary: &Varyings, u: &Uniforms) -> (c: Color) {
        let c = u.planet.base_color;
        let base = Vec3::new(Color::intensity(c.r), Color::intensity(c.g), Color::intensity(c.b));
        match self.kind {
            ShaderKind::Flat => to_color(base),
            _ => to_color(
                base.scale(
                    Fx::ratio(3, 10).add(Fx::ratio(7, 10).mul(lambert(vary.nrm_ws, u.light_dir))),
                ),
            ),
        }
    }
}

} // verus!
