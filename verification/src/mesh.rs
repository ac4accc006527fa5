//! Triangle meshes and the sphere the star is drawn from.

use vstd::prelude::*;
use crate::elementary::{fx_cos, fx_sin, PI_RAW, TWO_PI_RAW};
use crate::fixed::{fx_mul, fx_ratio, Fx};
use crate::math::vec::{Vec2, Vec3, V2, V3};
use crate::renderer::pipeline::VertexInModel;

verus! {

/// A vertex of a mesh, in model space.
#[derive(Clone, Copy, Debug, PartialEq, Eq, Structural)]
pub struct Vertex {
    pub position: Vec3,
    pub normal: Vec3,
    pub uv: Vec2,
}

impl View for Vertex {
    type V = VertexInModel;

    open spec fn view(&self) -> VertexInModel {
        VertexInModel { pos: self.position@, nrm: self.normal@, uv: self.uv@ }
    }
}

/// Whether the index list describes triangles over the vertex list: its
/// length is a multiple of three and every entry names a vertex.
pub open spec fn valid_indices(vertex_count: int, indices: Seq<u32>) -> bool {
    &&& indices.len() % 3 == 0
    &&& forall|i: int| 0 <= i < indices.len() ==> (#[trigger] indices[i]) < vertex_count
}

/// The vertex of a sphere of the given radius at column `x` of `segments`
/// and row `y` of `rings`: rows run from the north pole to the south pole,
/// columns once around the axis.
pub open spec fn sphere_vertex(x: int, y: int, segments: int, rings: int, radius: int)
    -> VertexInModel {
    let v = fx_ratio(y, rings);
    let theta = fx_mul(v, 13493037704);
    let u = fx_ratio(x, segments);
    let phi = fx_mul(u, 26986075408);
    let nx = fx_mul(fx_cos(phi), fx_sin(theta));
    let ny = fx_cos(theta);
    let nz = fx_mul(fx_sin(phi), fx_sin(theta));
    VertexInModel {
        pos: V3 { x: fx_mul(radius, nx), y: fx_mul(radius, ny), z: fx_mul(radius, nz) },
        nrm: V3 { x: nx, y: ny, z: nz },
        uv: V2 { x: u, y: v },
    }
}

/// The `k`-th of the six indices of the quad at column `x` and row `y` of a
/// sphere with `segments` columns: with `a` the corner of the quad, `b` the
/// next in the row, `c` the one below `a` and `d` the one below `b`, the two
/// triangles are `a, c, b` and `b, c, d`.
pub open spec fn quad_index(x: int, y: int, segments: int, k: int) -> int {
    let a = y * (segments + 1) + x;
    let b = a + 1;
    let c = a + segments + 1;
    let d = c + 1;
    if k == 0 {
        a
    } else if k == 1 || k == 4 {
        c
    } else if k == 2 || k == 3 {
        b
    } else {
        d
    }
}

/// Byte `k` of a 32-bit word, counted from the least significant.
pub open spec fn word_byte(w: u32, k: int) -> u8 {
    if k == 0 {
        (w % 256) as u8
    } else if k == 1 {
        ((w / 256) % 256) as u8
    } else if k == 2 {
        ((w / 65536) % 256) as u8
    } else {
        ((w / 16777216) % 256) as u8
    }
}

/// The words as bytes, four per word, least significant byte first.
pub open spec fn words_low_first(words: Seq<u32>) -> Seq<u8> {
    Seq::new(4 * words.len(), |i: int| word_byte(words[i / 4], i % 4))
}

/// The words as bytes, four per word, most significant byte first.
pub open spec fn words_high_first(words: Seq<u32>) -> Seq<u8> {
    Seq::new(4 * words.len(), |i: int| word_byte(words[i / 4], 3 - i % 4))
}

/// The index list as the bytes it occupies in memory.
///
/// Calls `bytemuck::cast_slice` from `u32` to `u8` and copies the result. Not
/// proved: that the bytes are those of the words, in order, four per word, in
/// the byte order of the machine, which is one of the two orders named here.
/// A cast to bytes needs no alignment and leaves no remainder, so the call
/// does not fail.
#[verifier::external_body]
fn words_as_bytes(words: &Vec<u32>) -> (bytes: Vec<u8>)
    ensures
        bytes@ == words_low_first(words@) || bytes@ == words_high_first(words@),
{
    bytemuck::cast_slice::<u32, u8>(words.as_slice()).to_vec()
}

/// Computes one vertex of the sphere.
fn make_sphere_vertex(x: u32, y: u32, segments: u32, rings: u32, radius: Fx) -> (r: Vertex)
    ensures
        r@ == sphere_vertex(x as int, y as int, segments as int, rings as int, radius@),
{
    let v = Fx::ratio(y as i64, rings as i64);
    let theta = v.mul(Fx { raw: PI_RAW });
    let u = Fx::ratio(x as i64, segments as i64);
    let phi = u.mul(Fx { raw: TWO_PI_RAW });
    let nx = phi.cos().mul(theta.sin());
    let ny = theta.cos();
    let nz = phi.sin().mul(theta.sin());
    Vertex {
        position: Vec3 { x: radius.mul(nx), y: radius.mul(ny), z: radius.mul(nz) },
        normal: Vec3 { x: nx, y: ny, z: nz },
        uv: Vec2 { x: u, y: v },
    }
}

/// Vertices and indices of a sphere made of `rings` bands of `segments` quads.
///
/// There are `(rings + 1) * (segments + 1)` vertices, row by row from the
/// north pole, and six indices for each quad, band by band. Every index names
/// a vertex, so the two lists form a mesh.
pub fn build_uv_sphere(segments: u32, rings: u32, radius: Fx) -> (r: (Vec<Vertex>, Vec<u32>))
    requires
        (rings + 1) * (segments + 1) <= u32::MAX,
    ensures
        r.0@.len() == (rings + 1) * (segments + 1),
        forall|x: int, y: int|
            0 <= x <= segments && 0 <= y <= rings ==> (#[trigger] r.0@[y * (segments + 1) + x])@
                == sphere_vertex(x, y, segments as int, rings as int, radius@),
        r.1@.len() == 6 * (rings * segments),
        forall|x: int, y: int, k: int|
            0 <= x < segments && 0 <= y < rings && 0 <= k < 6 ==> (#[trigger] r.1@[6 * (y
                * segments + x) + k]) == quad_index(x, y, segments as int, k),
        valid_indices(r.0@.len() as int, r.1@),
{
    proof {
        assert(segments + 1 <= (rings + 1) * (segments + 1)) by (nonlinear_arith)
            requires
                rings >= 0,
                segments >= 0,
        ;
    }
    let stride: u32 = segments + 1;
    let mut v: Vec<Vertex> = Vec::new();
    let mut i: Vec<u32> = Vec::new();
    proof {
        assert((rings + 1) * (segments + 1) == rings * stride + stride) by (nonlinear_arith)
            requires
                stride == segments + 1,
        ;
        assert(rings * stride >= rings) by (nonlinear_arith)
            requires
                rings >= 0,
                stride >= 1,
        ;
    }
    let mut y: u32 = 0;
    while y <= rings
        invariant
            stride == segments + 1,
            (rings + 1) * stride <= u32::MAX,
            rings < u32::MAX,
            y <= rings + 1,
            v@.len() == y * stride,
            forall|xx: int, yy: int|
                0 <= xx <= segments && 0 <= yy < y ==> (#[trigger] v@[yy * (segments + 1) + xx])@
                    == sphere_vertex(xx, yy, segments as int, rings as int, radius@),
        decreases rings + 1 - y,
    {
        let mut x: u32 = 0;
        while x <= segments
            invariant
                stride == segments + 1,
                y <= rings,
                x <= segments + 1,
                v@.len() == y * stride + x,
                forall|xx: int, yy: int|
                    0 <= xx <= segments && 0 <= yy < y ==> (#[trigger] v@[yy * (segments + 1)
                        + xx])@ == sphere_vertex(
                        xx,
                        yy,
                        segments as int,
                        rings as int,
                        radius@,
                    ),
                forall|xx: int|
                    0 <= xx < x ==> (#[trigger] v@[y * (segments + 1) + xx])@ == sphere_vertex(
                        xx,
                        y as int,
                        segments as int,
                        rings as int,
                        radius@,
                    ),
            decreases segments + 1 - x,
        {
            let ghost before = v@;
            v.push(make_sphere_vertex(x, y, segments, rings, radius));
            proof {
                assert forall|xx: int, yy: int| 0 <= xx <= segments && 0 <= yy < y implies (
                #[trigger] v@[yy * (segments + 1) + xx])@ == sphere_vertex(
                    xx,
                    yy,
                    segments as int,
                    rings as int,
                    radius@,
                ) by {
                    lemma_cell_order(xx, yy, y as int, segments as int + 1);
                    assert(v@[yy * (segments + 1) + xx] == before[yy * (segments + 1) + xx]);
                }
            }
            x = x + 1;
        }
        proof {
            assert((y + 1) * stride == y * stride + stride) by (nonlinear_arith);
            assert forall|xx: int, yy: int| 0 <= xx <= segments && 0 <= yy < y + 1 implies (
            #[trigger] v@[yy * (segments + 1) + xx])@ == sphere_vertex(
                xx,
                yy,
                segments as int,
                rings as int,
                radius@,
            ) by {
                if yy == y {
                    assert(v@[y * (segments + 1) + xx]@ == sphere_vertex(
                        xx,
                        y as int,
                        segments as int,
                        rings as int,
                        radius@,
                    ));
                }
            }
        }
        y = y + 1;
    }
    let count: u32 = (rings + 1) * stride;
    let mut y: u32 = 0;
    while y < rings
        invariant
            stride == segments + 1,
            count == (rings + 1) * stride,
            y <= rings,
            i@.len() == 6 * (y * segments),
            forall|xx: int, yy: int, k: int|
                0 <= xx < segments && 0 <= yy < y && 0 <= k < 6 ==> (#[trigger] i@[6 * (yy
                    * segments + xx) + k]) == quad_index(xx, yy, segments as int, k),
            forall|j: int| 0 <= j < i@.len() ==> (#[trigger] i@[j]) < count,
        decreases rings - y,
    {
        proof {
            assert(0 <= y * stride && y * stride + 2 * stride <= (rings + 1) * stride)
                by (nonlinear_arith)
                requires
                    0 <= y,
                    y + 2 <= rings + 1,
                    stride >= 0,
            ;
            assert(y * segments >= 0) by (nonlinear_arith)
                requires
                    y >= 0,
                    segments >= 0,
            ;
        }
        let row: u32 = y * stride;
        let mut x: u32 = 0;
        while x < segments
            invariant
                stride == segments + 1,
                count == (rings + 1) * stride,
                y < rings,
                x <= segments,
                row == y * stride,
                row + stride + segments < count + stride,
                row + stride + segments <= u32::MAX,
                row + 2 * stride <= count,
                y * segments >= 0,
                i@.len() == 6 * (y * segments + x),
                forall|xx: int, yy: int, k: int|
                    0 <= xx < segments && 0 <= yy < y && 0 <= k < 6 ==> (#[trigger] i@[6 * (yy
                        * segments + xx) + k]) == quad_index(xx, yy, segments as int, k),
                forall|xx: int, k: int|
                    0 <= xx < x && 0 <= k < 6 ==> (#[trigger] i@[6 * (y * segments + xx) + k])
                        == quad_index(xx, y as int, segments as int, k),
                forall|j: int| 0 <= j < i@.len() ==> (#[trigger] i@[j]) < count,
            decreases segments - x,
        {
            let a: u32 = row + x;
            let b: u32 = a + 1;
            let c: u32 = a + stride;
            let d: u32 = c + 1;
            let ghost before = i@;
            i.push(a);
            i.push(c);
            i.push(b);
            i.push(b);
            i.push(c);
            i.push(d);
            proof {
                let q = y * segments + x;
                assert(i@.len() == 6 * q + 6);
                assert forall|xx: int, yy: int, k: int|
                    0 <= xx < segments && 0 <= yy < y && 0 <= k < 6 implies (#[trigger] i@[6 * (yy
                    * segments + xx) + k]) == quad_index(xx, yy, segments as int, k) by {
                    lemma_cell_order(xx, yy, y as int, segments as int);
                    assert(i@[6 * (yy * segments + xx) + k] == before[6 * (yy * segments + xx)
                        + k]);
                }
                assert forall|xx: int, k: int| 0 <= xx < x + 1 && 0 <= k < 6 implies (
                #[trigger] i@[6 * (y * segments + xx) + k]) == quad_index(
                    xx,
                    y as int,
                    segments as int,
                    k,
                ) by {
                    if xx < x {
                        assert(i@[6 * (y * segments + xx) + k] == before[6 * (y * segments + xx)
                            + k]);
                    }
                }
                assert forall|j: int| 0 <= j < i@.len() implies (#[trigger] i@[j]) < count by {
                    if j < before.len() {
                        assert(i@[j] == before[j]);
                    }
                }
            }
            x = x + 1;
        }
        proof {
            assert((y + 1) * segments == y * segments + segments) by (nonlinear_arith);
        }
        y = y + 1;
    }
    proof {
        assert(6 * (rings * segments) == 3 * (2 * (rings * segments)));
    }
    (v, i)
}

/// In a grid of `width` columns, the cell at column `x` of an earlier row
/// comes before the start of every later row.
pub proof fn lemma_cell_order(x: int, y: int, later: int, width: int)
    requires
        0 <= x <= width,
        0 <= y < later,
    ensures
        0 <= y * width,
        x < width ==> y * width + x < later * width,
        y * width + width <= later * width,
{
    assert(0 <= y * width && y * width + width <= later * width) by (nonlinear_arith)
        requires
            0 <= y,
            y + 1 <= later,
            width >= 0,
    ;
}

/// An indexed triangle mesh: built once, then only read.
pub struct Mesh {
    vertices: Vec<Vertex>,
    indices: Vec<u32>,
}

impl Mesh {
    /// The vertices of the mesh.
    pub closed spec fn vertex_seq(&self) -> Seq<Vertex> {
        self.vertices@
    }

    /// The indices of the mesh, three per triangle.
    pub closed spec fn index_seq(&self) -> Seq<u32> {
        self.indices@
    }

    /// Every index names a vertex and the indices come in threes.
    pub open spec fn wf(&self) -> bool {
        valid_indices(self.vertex_seq().len() as int, self.index_seq())
    }

    /// The mesh of the given vertices and indices, or nothing where an index
    /// names no vertex or the number of indices is not a multiple of three.
    pub fn from_parts(vertices: Vec<Vertex>, indices: Vec<u32>) -> (r: Option<Mesh>)
        ensures
            r.is_some() == valid_indices(vertices@.len() as int, indices@),
            r matches Some(m) ==> m.wf() && m.vertex_seq() == vertices@ && m.index_seq()
                == indices@,
    {
        if indices.len() % 3 != 0 {
            return None;
        }
        let count = vertices.len();
        let mut k: usize = 0;
        while k < indices.len()
            invariant
                k <= indices@.len(),
                count == vertices@.len(),
                forall|j: int| 0 <= j < k ==> (#[trigger] indices@[j]) < count,
            decreases indices@.len() - k,
        {
            if indices[k] as usize >= count {
                return None;
            }
            k = k + 1;
        }
        Some(Mesh { vertices, indices })
    }

    /// The sphere of `rings` bands of `segments` quads and the given radius.
    pub fn new(segments: u32, rings: u32, radius: Fx) -> (m: Mesh)
        requires
            (rings + 1) * (segments + 1) <= u32::MAX,
        ensures
            m.wf(),
            m.vertex_seq().len() == (rings + 1) * (segments + 1),
            forall|x: int, y: int|
                0 <= x <= segments && 0 <= y <= rings ==> (#[trigger] m.vertex_seq()[y * (segments
                    + 1) + x])@ == sphere_vertex(x, y, segments as int, rings as int, radius@),
            m.index_seq().len() == 6 * (rings * segments),
            forall|x: int, y: int, k: int|
                0 <= x < segments && 0 <= y < rings && 0 <= k < 6 ==> (#[trigger] m.index_seq()[6
                    * (y * segments + x) + k]) == quad_index(x, y, segments as int, k),
    {
        let (vertices, indices) = build_uv_sphere(segments, rings, radius);
        Mesh { vertices, indices }
    }

    /// The vertices, in the order the indices count them.
    pub fn vertices(&self) -> (v: &Vec<Vertex>)
        ensures
            v@ == self.vertex_seq(),
    {
        &self.vertices
    }

    /// The indices, three per triangle, in drawing order.
    pub fn indices(&self) -> (i: &Vec<u32>)
        ensures
            i@ == self.index_seq(),
    {
        &self.indices
    }

    /// The indices as the bytes of an index buffer: four bytes per index, in
    /// the byte order of the machine.
    pub fn index_bytes(&self) -> (bytes: Vec<u8>)
        ensures
            bytes@.len() == 4 * self.index_seq().len(),
            bytes@ == words_low_first(self.index_seq()) || bytes@ == words_high_first(
                self.index_seq(),
            ),
    {
        words_as_bytes(&self.indices)
    }

    /// The number of triangles.
    pub fn triangle_count(&self) -> (n: usize)
        ensures
            n == self.index_seq().len() / 3,
    {
        self.indices.len() / 3
    }
}

} // verus!
