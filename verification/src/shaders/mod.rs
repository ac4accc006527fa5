//! The shading styles and their factory.

pub mod common;
pub mod star;
pub mod surface;

use vstd::prelude::*;
use crate::renderer::buffers::Color;
use crate::renderer::pipeline::{Shader, VertexIn, VertexInModel, VertexOut, VertexOutModel};
use crate::renderer::raster::{Varyings, VaryingsModel};
use crate::renderer::uniforms::Uniforms;
use crate::shaders::star::Star;
use crate::shaders::surface::Surface;

verus! {

/// The shading styles.
#[derive(Clone, Copy, Debug, PartialEq, Eq, Structural)]
pub enum ShaderKind {
    Flat,
    Rocky,
    Gas,
    SciFi,
    Lava,
    Ice,
    Star,
    Rings,
    Moon,
}

/// The name of a kind of style.
pub open spec fn kind_name(kind: ShaderKind) -> Seq<char> {
    match kind {
        ShaderKind::Flat => "Flat"@,
        ShaderKind::Rocky => "Rocky"@,
        ShaderKind::Gas => "Gas"@,
        ShaderKind::SciFi => "SciFi"@,
        ShaderKind::Lava => "Lava"@,
        ShaderKind::Ice => "Ice"@,
        ShaderKind::Star => "Star"@,
        ShaderKind::Rings => "Rings"@,
        ShaderKind::Moon => "Moon"@,
    }
}

impl ShaderKind {
    /// The name of the kind.
    pub fn name(self) -> (r: &'static str)
        ensures
            r@ == kind_name(self),
    {
        match self {
            ShaderKind::Flat => "Flat",
            ShaderKind::Rocky => "Rocky",
            ShaderKind::Gas => "Gas",
            ShaderKind::SciFi => "SciFi",
            ShaderKind::Lava => "Lava",
            ShaderKind::Ice => "Ice",
            ShaderKind::Star => "Star",
            ShaderKind::Rings => "Rings",
            ShaderKind::Moon => "Moon",
        }
    }
}

/// A shading style chosen at run time.
#[derive(Clone, Copy, Debug)]
pub enum AnyShader {
    /// The star.
    Star(Star),
    /// One of the planet styles.
    Surface(Surface),
}

/// The style that the factory makes for a kind: the star for `Star`, the
/// planet style of that kind for every other.
pub open spec fn shader_of(kind: ShaderKind) -> AnyShader {
    if kind == ShaderKind::Star {
        AnyShader::Star(Star)
    } else {
        AnyShader::Surface(Surface { kind })
    }
}

impl AnyShader {
    /// The kind the style was made for.
    pub open spec fn kind_spec(&self) -> ShaderKind {
        match *self {
            AnyShader::Star(_) => ShaderKind::Star,
            AnyShader::Surface(s) => s.kind,
        }
    }

    /// The kind the style was made for.
    pub fn kind(&self) -> (k: ShaderKind)
        ensures
            k == self.kind_spec(),
    {
        match self {
            AnyShader::Star(_) => ShaderKind::Star,
            AnyShader::Surface(s) => s.kind,
        }
    }
}

impl Shader for AnyShader {
    open spec fn vertex_out(&self, vin: VertexInModel, u: Uniforms) -> VertexOutModel {
        match *self {
            AnyShader::Star(s) => s.vertex_out(vin, u),
            AnyShader::Surface(s) => s.vertex_out(vin, u),
        }
    }

    open spec fn fragment_color(&self, vary: VaryingsModel, u: Uniforms) -> Color {
        match *self {
            AnyShader::Star(s) => s.fragment_color(vary, u),
            AnyShader::Surface(s) => s.fragment_color(vary, u),
        }
    }

    open spec fn style_name(&self) -> Seq<char> {
        kind_name(self.kind_spec())
    }

    fn name(&self) -> (r: &'static str) {
        match self {
            AnyShader::Star(s) => s.name(),
            AnyShader::Surface(s) => s.name(),
        }
    }

    fn vertex(&self, vin: VertexIn, u: &Uniforms) -> (out: VertexOut) {
        match self {
            AnyShader::Star(s) => s.vertex(vin, u),
            AnyShader::Surface(s) => s.vertex(vin, u),
        }
    }

    fn fragment(&self, vary: &Varyings, u: &Uniforms) -> (c: Color) {
        match self {
            AnyShader::Star(s) => s.fragment(vary, u),
            AnyShader::Surface(s) => s.fragment(vary, u),
        }
    }
}

/// Makes the style for `kind`.
pub fn make_shader(kind: ShaderKind) -> (s: AnyShader)
    ensures
        s == shader_of(kind),
        s.kind_spec() == kind,
{
    match kind {
        ShaderKind::Star => AnyShader::Star(Star),
        ShaderKind::Flat => AnyShader::Surface(Surface { kind: ShaderKind::Flat }),
        ShaderKind::Rocky => AnyShader::Surface(Surface { kind: ShaderKind::Rocky }),
        ShaderKind::Gas => AnyShader::Surface(Surface { kind: ShaderKind::Gas }),
        ShaderKind::SciFi => AnyShader::Surface(Surface { kind: ShaderKind::SciFi }),
        ShaderKind::Lava => AnyShader::Surface(Surface { kind: ShaderKind::Lava }),
        ShaderKind::Ice => AnyShader::Surface(Surface { kind: ShaderKind::Ice }),
        ShaderKind::Rings => AnyShader::Surface(Surface { kind: ShaderKind::Rings }),
        ShaderKind::Moon => AnyShader::Surface(Surface { kind: ShaderKind::Moon }),
    }
}

} // verus!
