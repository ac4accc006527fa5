//! The programmable stages and the traversal of a mesh.

use vstd::prelude::*;
use crate::fixed::{fx_div, Fx};
use crate::math::mat::{m4_mul_vec, Mat4, M4};
use crate::math::vec::{Vec2, Vec3, Vec4, V2, V3, V4};
use crate::mesh::{Mesh, Vertex};
use crate::renderer::buffers::{Color, FrameModel, Framebuffer};
use crate::renderer::raster::{
    covers, depth_at, draw_triangle, frame_after_triangle, wins, ScreenTriangle,
    ScreenTriangleModel, ScreenVertex, ScreenVertexModel, Varyings, VaryingsModel,
};
use crate::renderer::uniforms::Uniforms;

verus! {

/// A vertex as the mesh holds it, in model space.
#[derive(Clone, Copy, Debug, PartialEq, Eq, Structural)]
pub struct VertexIn {
    pub pos: Vec3,
    pub nrm: Vec3,
    pub uv: Vec2,
}

/// A vertex after the vertex stage.
#[derive(Clone, Copy, Debug, PartialEq, Eq, Structural)]
pub struct VertexOut {
    /// Position in clip space.
    pub clip_pos: Vec4,
    /// Position in world space.
    pub pos_ws: Vec3,
    /// Normal in world space.
    pub nrm_ws: Vec3,
    /// Surface coordinates.
    pub uv: Vec2,
}

/// Mathematical model of a vertex of the mesh.
pub struct VertexInModel {
    pub pos: V3,
    pub nrm: V3,
    pub uv: V2,
}

/// Mathematical model of a vertex after the vertex stage.
pub struct VertexOutModel {
    pub clip_pos: V4,
    pub pos_ws: V3,
    pub nrm_ws: V3,
    pub uv: V2,
}

impl View for VertexIn {
    type V = VertexInModel;

    open spec fn view(&self) -> VertexInModel {
        VertexInModel { pos: self.pos@, nrm: self.nrm@, uv: self.uv@ }
    }
}

impl View for VertexOut {
    type V = VertexOutModel;

    open spec fn view(&self) -> VertexOutModel {
        VertexOutModel {
            clip_pos: self.clip_pos@,
            pos_ws: self.pos_ws@,
            nrm_ws: self.nrm_ws@,
            uv: self.uv@,
        }
    }
}

/// A shading style: a vertex stage and a fragment stage.
///
/// Both stages are functions of their arguments: a style keeps no state from
/// one call to the next, so that a frame depends on the mesh and on the
/// uniforms alone.
pub trait Shader {
    /// What the vertex stage makes of a vertex.
    spec fn vertex_out(&self, vin: VertexInModel, u: Uniforms) -> VertexOutModel;

    /// The colour of a fragment.
    spec fn fragment_color(&self, vary: VaryingsModel, u: Uniforms) -> Color;

    /// The name of the style.
    spec fn style_name(&self) -> Seq<char>;

    /// The name of the style, for the host to show.
    fn name(&self) -> (r: &'static str)
        ensures
            r@ == self.style_name(),
    ;

    /// Takes a vertex from model space to clip space and hands on what the
    /// fragments will need.
    fn vertex(&self, vin: VertexIn, u: &Uniforms) -> (out: VertexOut)
        ensures
            out@ == self.vertex_out(vin@, *u),
    ;

    /// Shades one fragment.
    fn fragment(&self, vary: &Varyings, u: &Uniforms) -> (c: Color)
        ensures
            c == self.fragment_color(vary@, *u),
    ;
}

/// A vertex taken from clip space to screen space, or nothing where it lies
/// at or behind the plane of the eye.
///
/// The clip-space position is divided by its `w` and mapped to the screen by
/// the viewport transform; the reciprocal of `w` is kept for the
/// interpolation of the attributes.
pub open spec fn projected(out: VertexOutModel, viewport: M4) -> Option<ScreenVertexModel> {
    let w = out.clip_pos.w;
    if w <= 0 {
        None
    } else {
        let ndc = V4 {
            x: fx_div(out.clip_pos.x, w),
            y: fx_div(out.clip_pos.y, w),
            z: fx_div(out.clip_pos.z, w),
            w: 4294967296,
        };
        let s = m4_mul_vec(viewport, ndc);
        Some(
            ScreenVertexModel {
                x: s.x,
                y: s.y,
                z: s.z,
                inv_w: fx_div(4294967296, w),
                vary: VaryingsModel { pos_ws: out.pos_ws, nrm_ws: out.nrm_ws, uv: out.uv },
            },
        )
    }
}

/// The screen-space triangle of three vertices, or nothing where one of them
/// lies at or behind the plane of the eye.
pub open spec fn assembled(
    a: VertexOutModel,
    b: VertexOutModel,
    c: VertexOutModel,
    viewport: M4,
) -> Option<ScreenTriangleModel> {
    match (projected(a, viewport), projected(b, viewport), projected(c, viewport)) {
        (Some(sa), Some(sb), Some(sc)) => Some(ScreenTriangleModel { a: sa, b: sb, c: sc }),
        _ => None,
    }
}

/// The `k`-th triangle of a mesh on the screen.
pub open spec fn mesh_triangle<S: Shader>(
    vertices: Seq<Vertex>,
    indices: Seq<u32>,
    shader: S,
    u: Uniforms,
    viewport: M4,
    k: int,
) -> Option<ScreenTriangleModel> {
    assembled(
        shader.vertex_out(vertices[indices[3 * k] as int]@, u),
        shader.vertex_out(vertices[indices[3 * k + 1] as int]@, u),
        shader.vertex_out(vertices[indices[3 * k + 2] as int]@, u),
        viewport,
    )
}

/// The frame after the first `count` triangles of a mesh have been drawn on
/// it, one after the other in the order of the index list.
pub open spec fn frame_after_mesh<S: Shader>(
    f: FrameModel,
    vertices: Seq<Vertex>,
    indices: Seq<u32>,
    shader: S,
    u: Uniforms,
    viewport: M4,
    count: nat,
) -> FrameModel
    decreases count,
{
    if count == 0 {
        f
    } else {
        let before = frame_after_mesh(
            f,
            vertices,
            indices,
            shader,
            u,
            viewport,
            (count - 1) as nat,
        );
        match mesh_triangle(vertices, indices, shader, u, viewport, count - 1) {
            Some(t) => frame_after_triangle(before, t, shader, u),
            None => before,
        }
    }
}

/// Drawing triangles changes neither the size of a frame nor the length of
/// its rasters.
pub proof fn lemma_mesh_keeps_shape<S: Shader>(
    f: FrameModel,
    vertices: Seq<Vertex>,
    indices: Seq<u32>,
    shader: S,
    u: Uniforms,
    viewport: M4,
    count: nat,
)
    ensures
        ({
            let g = frame_after_mesh(f, vertices, indices, shader, u, viewport, count);
            &&& g.width == f.width
            &&& g.height == f.height
            &&& g.color.len() == f.color.len()
            &&& g.depth.len() == f.depth.len()
        }),
    decreases count,
{
    if count > 0 {
        lemma_mesh_keeps_shape(f, vertices, indices, shader, u, viewport, (count - 1) as nat);
    }
}

/// Once a triangle of a mesh has been drawn, no pixel it covers is farther
/// than the triangle is there, however many triangles are drawn after it.
pub proof fn lemma_mesh_depth_bound<S: Shader>(
    f: FrameModel,
    vertices: Seq<Vertex>,
    indices: Seq<u32>,
    shader: S,
    u: Uniforms,
    viewport: M4,
    count: nat,
    k: int,
    i: int,
)
    requires
        f.width > 0,
        f.color.len() == f.width * f.height,
        f.depth.len() == f.width * f.height,
        0 <= k < count,
        0 <= i < f.width * f.height,
        mesh_triangle(vertices, indices, shader, u, viewport, k) is Some,
        covers(
            mesh_triangle(vertices, indices, shader, u, viewport, k)->0,
            i % (f.width as int),
            i / (f.width as int),
        ),
    ensures
        frame_after_mesh(f, vertices, indices, shader, u, viewport, count).depth[i] <= depth_at(
            mesh_triangle(vertices, indices, shader, u, viewport, k)->0,
            i % (f.width as int),
            i / (f.width as int),
        ),
    decreases count,
{
    let before = frame_after_mesh(f, vertices, indices, shader, u, viewport, (count - 1) as nat);
    lemma_mesh_keeps_shape(f, vertices, indices, shader, u, viewport, (count - 1) as nat);
    if k < count - 1 {
        lemma_mesh_depth_bound(
            f,
            vertices,
            indices,
            shader,
            u,
            viewport,
            (count - 1) as nat,
            k,
            i,
        );
    }
    match mesh_triangle(vertices, indices, shader, u, viewport, count - 1) {
        Some(last) => {
            let after = frame_after_triangle(before, last, shader, u);
            assert(after.depth[i] <= before.depth[i]);
        },
        None => {},
    }
}

/// Drawing a mesh a second time changes nothing: every fragment of the second
/// pass meets a pixel that is already as near as the fragment, and the depth
/// test keeps what is there.
pub proof fn lemma_second_pass_changes_nothing<S: Shader>(
    f: FrameModel,
    vertices: Seq<Vertex>,
    indices: Seq<u32>,
    shader: S,
    u: Uniforms,
    viewport: M4,
    count: nat,
    again: nat,
)
    requires
        f.color.len() == f.width * f.height,
        f.depth.len() == f.width * f.height,
        again <= count,
    ensures
        frame_after_mesh(
            frame_after_mesh(f, vertices, indices, shader, u, viewport, count),
            vertices,
            indices,
            shader,
            u,
            viewport,
            again,
        ) == frame_after_mesh(f, vertices, indices, shader, u, viewport, count),
    decreases again,
{
    let once = frame_after_mesh(f, vertices, indices, shader, u, viewport, count);
    lemma_mesh_keeps_shape(f, vertices, indices, shader, u, viewport, count);
    if again > 0 {
        lemma_second_pass_changes_nothing(
            f,
            vertices,
            indices,
            shader,
            u,
            viewport,
            count,
            (again - 1) as nat,
        );
        match mesh_triangle(vertices, indices, shader, u, viewport, again - 1) {
            Some(t) => {
                let twice = frame_after_triangle(once, t, shader, u);
                assert forall|i: int| 0 <= i < once.depth.len() implies !wins(once, t, i) by {
                    if f.width > 0 && covers(t, i % (f.width as int), i / (f.width as int)) {
                        lemma_mesh_depth_bound(
                            f,
                            vertices,
                            indices,
                            shader,
                            u,
                            viewport,
                            count,
                            again - 1,
                            i,
                        );
                    }
                }
                assert(twice.color =~= once.color);
                assert(twice.depth =~= once.depth);
            },
            None => {},
        }
    }
}

/// Takes a vertex from clip space to screen space.
pub fn project(out: &VertexOut, viewport: &Mat4) -> (r: Option<ScreenVertex>)
    ensures
        r.is_some() == projected(out@, viewport@).is_some(),
        r matches Some(v) ==> Some(v@) == projected(out@, viewport@),
{
    let w = out.clip_pos.w;
    if w.raw <= 0 {
        None
    } else {
        let ndc = Vec4 {
            x: out.clip_pos.x.div(w),
            y: out.clip_pos.y.div(w),
            z: out.clip_pos.z.div(w),
            w: Fx::one(),
        };
        let s = viewport.mul_vec(ndc);
        Some(
            ScreenVertex {
                x: s.x,
                y: s.y,
                z: s.z,
                inv_w: Fx::one().div(w),
                vary: Varyings { pos_ws: out.pos_ws, nrm_ws: out.nrm_ws, uv: out.uv },
            },
        )
    }
}

/// Puts three vertices together to a triangle on the screen.
pub fn assemble(a: &VertexOut, b: &VertexOut, c: &VertexOut, viewport: &Mat4) -> (r: Option<
    ScreenTriangle,
>)
    ensures
        r.is_some() == assembled(a@, b@, c@, viewport@).is_some(),
        r matches Some(t) ==> Some(t@) == assembled(a@, b@, c@, viewport@),
{
    match project(a, viewport) {
        Some(sa) => match project(b, viewport) {
            Some(sb) => match project(c, viewport) {
                Some(sc) => Some(ScreenTriangle { a: sa, b: sb, c: sc }),
                None => None,
            },
            None => None,
        },
        None => None,
    }
}

/// Runs the vertex stage once for every vertex of the mesh.
fn shade_vertices<S: Shader>(mesh: &Mesh, shader: &S, u: &Uniforms) -> (outs: Vec<VertexOut>)
    ensures
        outs@.len() == mesh.vertex_seq().len(),
        forall|k: int|
            0 <= k < outs@.len() ==> (#[trigger] outs@[k])@ == shader.vertex_out(
                mesh.vertex_seq()[k]@,
                *u,
            ),
{
    let vertices = mesh.vertices();
    let mut outs: Vec<VertexOut> = Vec::new();
    let mut k: usize = 0;
    while k < vertices.len()
        invariant
            k <= vertices@.len(),
            vertices@ == mesh.vertex_seq(),
            outs@.len() == k,
            forall|j: int|
                0 <= j < k ==> (#[trigger] outs@[j])@ == shader.vertex_out(
                    mesh.vertex_seq()[j]@,
                    *u,
                ),
        decreases vertices@.len() - k,
    {
        let v = vertices[k];
        let vin = VertexIn { pos: v.position, nrm: v.normal, uv: v.uv };
        outs.push(shader.vertex(vin, u));
        k = k + 1;
    }
    outs
}

/// Draws a mesh on the frame.
///
/// The vertex stage runs once per vertex. The triangles are then drawn in the
/// order of the index list: each is taken to the screen, dropped if a corner
/// lies at or behind the plane of the eye or if it is a back face or has no
/// area, and rasterized otherwise, wherever its corners lie. Where two
/// fragments of equal depth meet at a pixel, the one of the triangle drawn
/// first stays.
pub fn draw_mesh<S: Shader>(
    fb: &mut Framebuffer,
    mesh: &Mesh,
    shader: &S,
    u: &Uniforms,
    viewport: Mat4,
)
    requires
        old(fb).wf(),
        mesh.wf(),
    ensures
        final(fb).wf(),
        final(fb)@ == frame_after_mesh(
            old(fb)@,
            mesh.vertex_seq(),
            mesh.index_seq(),
            *shader,
            *u,
            viewport@,
            mesh.index_seq().len() / 3,
        ),
{
    let outs = shade_vertices(mesh, shader, u);
    let indices = mesh.indices();
    let total = indices.len();
    let count = total / 3;
    let mut k: usize = 0;
    while k < count
        invariant
            k <= count,
            total == mesh.index_seq().len(),
            count == total / 3,
            indices@ == mesh.index_seq(),
            mesh.wf(),
            outs@.len() == mesh.vertex_seq().len(),
            forall|j: int|
                0 <= j < outs@.len() ==> (#[trigger] outs@[j])@ == shader.vertex_out(
                    mesh.vertex_seq()[j]@,
                    *u,
                ),
            fb.wf(),
            fb@ == frame_after_mesh(
                old(fb)@,
                mesh.vertex_seq(),
                mesh.index_seq(),
                *shader,
                *u,
                viewport@,
                k as nat,
            ),
        decreases count - k,
    {
        let ia = indices[3 * k] as usize;
        let ib = indices[3 * k + 1] as usize;
        let ic = indices[3 * k + 2] as usize;
        match assemble(&outs[ia], &outs[ib], &outs[ic], &viewport) {
            Some(tri) => {
                draw_triangle(fb, &tri, shader, u);
            },
            None => {},
        }
        k = k + 1;
    }
}

} // verus!
