//! Vertices, meshes, and the affine vertex algebra used to synthesize
//! clipped and interpolated vertices.

use vstd::prelude::*;
use crate::fx::SCALE;
use crate::fx::fmul;
use crate::fx::quot;
use crate::fx::fx_mul;
use crate::fx::lemma_mul_bound;
use crate::fx::Vec2Fx;
use crate::fx::Vec3Fx;
use crate::fx::Vec4Fx;
use crate::texture::Texture;

verus! {

/// Magnitude limit on every component of a vertex fed to the pipeline.
pub const POS_LIMIT: i128 = 0x1000_0000_0000;

/// A vertex: homogeneous clip-space position, normal, color and texture
/// coordinate. A single affine weight applies identically to all four
/// attributes.
#[derive(Clone, Copy, PartialEq, Eq, Debug)]
pub struct Vertex {
    pub pos: Vec4Fx,
    pub normal: Vec3Fx,
    pub color: Vec3Fx,
    pub uv: Vec2Fx,
}

/// Every component of `v` lies within `[-lim, lim]`.
pub open spec fn vertex_in_limit(v: Vertex, lim: int) -> bool {
    &&& -lim <= v.pos.x <= lim
    &&& -lim <= v.pos.y <= lim
    &&& -lim <= v.pos.z <= lim
    &&& -lim <= v.pos.w <= lim
    &&& -lim <= v.normal.x <= lim
    &&& -lim <= v.normal.y <= lim
    &&& -lim <= v.normal.z <= lim
    &&& -lim <= v.color.x <= lim
    &&& -lim <= v.color.y <= lim
    &&& -lim <= v.color.z <= lim
    &&& -lim <= v.uv.x <= lim
    &&& -lim <= v.uv.y <= lim
}

/// `r` is `v` with every component scaled by the fixed-point factor `s`.
pub open spec fn vertex_is_scaled(r: Vertex, v: Vertex, s: int) -> bool {
    &&& r.pos.x == fmul(v.pos.x as int, s)
    &&& r.pos.y == fmul(v.pos.y as int, s)
    &&& r.pos.z == fmul(v.pos.z as int, s)
    &&& r.pos.w == fmul(v.pos.w as int, s)
    &&& r.normal.x == fmul(v.normal.x as int, s)
    &&& r.normal.y == fmul(v.normal.y as int, s)
    &&& r.normal.z == fmul(v.normal.z as int, s)
    &&& r.color.x == fmul(v.color.x as int, s)
    &&& r.color.y == fmul(v.color.y as int, s)
    &&& r.color.z == fmul(v.color.z as int, s)
    &&& r.uv.x == fmul(v.uv.x as int, s)
    &&& r.uv.y == fmul(v.uv.y as int, s)
}

/// `r` is the componentwise sum of `a` and `b`, across every attribute.
pub open spec fn vertex_is_sum(r: Vertex, a: Vertex, b: Vertex) -> bool {
    &&& r.pos.x == a.pos.x + b.pos.x
    &&& r.pos.y == a.pos.y + b.pos.y
    &&& r.pos.z == a.pos.z + b.pos.z
    &&& r.pos.w == a.pos.w + b.pos.w
    &&& r.normal.x == a.normal.x + b.normal.x
    &&& r.normal.y == a.normal.y + b.normal.y
    &&& r.normal.z == a.normal.z + b.normal.z
    &&& r.color.x == a.color.x + b.color.x
    &&& r.color.y == a.color.y + b.color.y
    &&& r.color.z == a.color.z + b.color.z
    &&& r.uv.x == a.uv.x + b.uv.x
    &&& r.uv.y == a.uv.y + b.uv.y
}

/// The affine combination `c0 * (1 - alpha) + c1 * alpha` of two
/// fixed-point scalars, with a single rounding at the end.
pub open spec fn blend(c0: int, c1: int, alpha: int) -> int {
    quot(c0 * (SCALE - alpha) + c1 * alpha, SCALE as int)
}

/// `r` is the affine combination of `a` and `b` with weight `alpha` on
/// `b`, applied identically to every component.
pub open spec fn vertex_is_blend(r: Vertex, a: Vertex, b: Vertex, alpha: int) -> bool {
    &&& r.pos.x == blend(a.pos.x as int, b.pos.x as int, alpha)
    &&& r.pos.y == blend(a.pos.y as int, b.pos.y as int, alpha)
    &&& r.pos.z == blend(a.pos.z as int, b.pos.z as int, alpha)
    &&& r.pos.w == blend(a.pos.w as int, b.pos.w as int, alpha)
    &&& r.normal.x == blend(a.normal.x as int, b.normal.x as int, alpha)
    &&& r.normal.y == blend(a.normal.y as int, b.normal.y as int, alpha)
    &&& r.normal.z == blend(a.normal.z as int, b.normal.z as int, alpha)
    &&& r.color.x == blend(a.color.x as int, b.color.x as int, alpha)
    &&& r.color.y == blend(a.color.y as int, b.color.y as int, alpha)
    &&& r.color.z == blend(a.color.z as int, b.color.z as int, alpha)
    &&& r.uv.x == blend(a.uv.x as int, b.uv.x as int, alpha)
    &&& r.uv.y == blend(a.uv.y as int, b.uv.y as int, alpha)
}

impl Vertex {
    /// A vertex from its four attributes.
    pub fn new(position: Vec4Fx, normal: Vec3Fx, color: Vec3Fx, uv: Vec2Fx) -> (v: Vertex)
        ensures
            v == (Vertex { pos: position, normal: normal, color: color, uv: uv }),
    {
        Vertex { pos: position, normal: normal, color: color, uv: uv }
    }

    /// Scales every component of every attribute by the fixed-point
    /// factor `rhs`.
    pub fn mul(self, rhs: i128) -> (r: Vertex)
        requires
            -i128::MAX <= self.pos.x * rhs <= i128::MAX,
            -i128::MAX <= self.pos.y * rhs <= i128::MAX,
            -i128::MAX <= self.pos.z * rhs <= i128::MAX,
            -i128::MAX <= self.pos.w * rhs <= i128::MAX,
            -i128::MAX <= self.normal.x * rhs <= i128::MAX,
            -i128::MAX <= self.normal.y * rhs <= i128::MAX,
            -i128::MAX <= self.normal.z * rhs <= i128::MAX,
            -i128::MAX <= self.color.x * rhs <= i128::MAX,
            -i128::MAX <= self.color.y * rhs <= i128::MAX,
            -i128::MAX <= self.color.z * rhs <= i128::MAX,
            -i128::MAX <= self.uv.x * rhs <= i128::MAX,
            -i128::MAX <= self.uv.y * rhs <= i128::MAX,
        ensures
            vertex_is_scaled(r, self, rhs as int),
    {
        Vertex {
            pos: Vec4Fx {
                x: fx_mul(self.pos.x, rhs),
                y: fx_mul(self.pos.y, rhs),
                z: fx_mul(self.pos.z, rhs),
                w: fx_mul(self.pos.w, rhs),
            },
            normal: Vec3Fx {
                x: fx_mul(self.normal.x, rhs),
                y: fx_mul(self.normal.y, rhs),
                z: fx_mul(self.normal.z, rhs),
            },
            color: Vec3Fx {
                x: fx_mul(self.color.x, rhs),
                y: fx_mul(self.color.y, rhs),
                z: fx_mul(self.color.z, rhs),
            },
            uv: Vec2Fx { x: fx_mul(self.uv.x, rhs), y: fx_mul(self.uv.y, rhs) },
        }
    }

    /// Adds the two vertices componentwise, across every attribute.
    pub fn add(self, rhs: Vertex) -> (r: Vertex)
        requires
            i128::MIN <= self.pos.x + rhs.pos.x <= i128::MAX,
            i128::MIN <= self.pos.y + rhs.pos.y <= i128::MAX,
            i128::MIN <= self.pos.z + rhs.pos.z <= i128::MAX,
            i128::MIN <= self.pos.w + rhs.pos.w <= i128::MAX,
            i128::MIN <= self.normal.x + rhs.normal.x <= i128::MAX,
            i128::MIN <= self.normal.y + rhs.normal.y <= i128::MAX,
            i128::MIN <= self.normal.z + rhs.normal.z <= i128::MAX,
            i128::MIN <= self.color.x + rhs.color.x <= i128::MAX,
            i128::MIN <= self.color.y + rhs.color.y <= i128::MAX,
            i128::MIN <= self.color.z + rhs.color.z <= i128::MAX,
            i128::MIN <= self.uv.x + rhs.uv.x <= i128::MAX,
            i128::MIN <= self.uv.y + rhs.uv.y <= i128::MAX,
        ensures
            vertex_is_sum(r, self, rhs),
    {
        Vertex {
            pos: Vec4Fx {
                x: self.pos.x + rhs.pos.x,
                y: self.pos.y + rhs.pos.y,
                z: self.pos.z + rhs.pos.z,
                w: self.pos.w + rhs.pos.w,
            },
            normal: Vec3Fx {
                x: self.normal.x + rhs.normal.x,
                y: self.normal.y + rhs.normal.y,
                z: self.normal.z + rhs.normal.z,
            },
            color: Vec3Fx {
                x: self.color.x + rhs.color.x,
                y: self.color.y + rhs.color.y,
                z: self.color.z + rhs.color.z,
            },
            uv: Vec2Fx { x: self.uv.x + rhs.uv.x, y: self.uv.y + rhs.uv.y },
        }
    }
}

/// A 4x4 fixed-point matrix, row major: `mRC` is row `R`, column `C`.
#[derive(Clone, Copy, PartialEq, Eq, Debug)]
pub struct Mat4Fx {
    pub m00: i128,
    pub m01: i128,
    pub m02: i128,
    pub m03: i128,
    pub m10: i128,
    pub m11: i128,
    pub m12: i128,
    pub m13: i128,
    pub m20: i128,
    pub m21: i128,
    pub m22: i128,
    pub m23: i128,
    pub m30: i128,
    pub m31: i128,
    pub m32: i128,
    pub m33: i128,
}

/// Every entry of the matrix lies within `[-lim, lim]`.
pub open spec fn mat_in_limit(m: Mat4Fx, lim: int) -> bool {
    &&& -lim <= m.m00 <= lim
    &&& -lim <= m.m01 <= lim
    &&& -lim <= m.m02 <= lim
    &&& -lim <= m.m03 <= lim
    &&& -lim <= m.m10 <= lim
    &&& -lim <= m.m11 <= lim
    &&& -lim <= m.m12 <= lim
    &&& -lim <= m.m13 <= lim
    &&& -lim <= m.m20 <= lim
    &&& -lim <= m.m21 <= lim
    &&& -lim <= m.m22 <= lim
    &&& -lim <= m.m23 <= lim
    &&& -lim <= m.m30 <= lim
    &&& -lim <= m.m31 <= lim
    &&& -lim <= m.m32 <= lim
    &&& -lim <= m.m33 <= lim
}

/// One row of the matrix applied to a homogeneous position.
pub open spec fn row_apply(a: int, b: int, c: int, d: int, p: Vec4Fx) -> int {
    fmul(a, p.x as int) + fmul(b, p.y as int) + fmul(c, p.z as int) + fmul(d, p.w as int)
}

/// The matrix applied to a vertex's position; the other attributes
/// ride along unchanged.
pub open spec fn xformed_vertex(m: Mat4Fx, v: Vertex) -> Vertex {
    Vertex {
        pos: Vec4Fx {
            x: row_apply(m.m00 as int, m.m01 as int, m.m02 as int, m.m03 as int, v.pos) as i128,
            y: row_apply(m.m10 as int, m.m11 as int, m.m12 as int, m.m13 as int, v.pos) as i128,
            z: row_apply(m.m20 as int, m.m21 as int, m.m22 as int, m.m23 as int, v.pos) as i128,
            w: row_apply(m.m30 as int, m.m31 as int, m.m32 as int, m.m33 as int, v.pos) as i128,
        },
        normal: v.normal,
        color: v.color,
        uv: v.uv,
    }
}

/// One row of a bounded matrix applied to a bounded position, exactly.
fn row_apply_exec(a: i128, b: i128, c: i128, d: i128, p: Vec4Fx) -> (r: i128)
    requires
        -POS_LIMIT <= a <= POS_LIMIT,
        -POS_LIMIT <= b <= POS_LIMIT,
        -POS_LIMIT <= c <= POS_LIMIT,
        -POS_LIMIT <= d <= POS_LIMIT,
        -POS_LIMIT <= p.x <= POS_LIMIT,
        -POS_LIMIT <= p.y <= POS_LIMIT,
        -POS_LIMIT <= p.z <= POS_LIMIT,
        -POS_LIMIT <= p.w <= POS_LIMIT,
    ensures
        r == row_apply(a as int, b as int, c as int, d as int, p),
{
    proof {
        lemma_mul_bound(a as int, p.x as int, POS_LIMIT as int, POS_LIMIT as int);
        lemma_mul_bound(b as int, p.y as int, POS_LIMIT as int, POS_LIMIT as int);
        lemma_mul_bound(c as int, p.z as int, POS_LIMIT as int, POS_LIMIT as int);
        lemma_mul_bound(d as int, p.w as int, POS_LIMIT as int, POS_LIMIT as int);
        crate::fx::lemma_quot_bounds(a as int * p.x as int, SCALE as int);
        crate::fx::lemma_quot_bounds(b as int * p.y as int, SCALE as int);
        crate::fx::lemma_quot_bounds(c as int * p.z as int, SCALE as int);
        crate::fx::lemma_quot_bounds(d as int * p.w as int, SCALE as int);
    }
    fx_mul(a, p.x) + fx_mul(b, p.y) + fx_mul(c, p.z) + fx_mul(d, p.w)
}

/// Transforms a vertex's position by the matrix, leaving the other
/// attributes untouched.
pub fn transform_vertex(m: &Mat4Fx, v: &Vertex) -> (r: Vertex)
    requires
        mat_in_limit(*m, POS_LIMIT as int),
        vertex_in_limit(*v, POS_LIMIT as int),
    ensures
        r == xformed_vertex(*m, *v),
{
    let x = row_apply_exec(m.m00, m.m01, m.m02, m.m03, v.pos);
    let y = row_apply_exec(m.m10, m.m11, m.m12, m.m13, v.pos);
    let z = row_apply_exec(m.m20, m.m21, m.m22, m.m23, v.pos);
    let w = row_apply_exec(m.m30, m.m31, m.m32, m.m33, v.pos);
    Vertex { pos: Vec4Fx { x, y, z, w }, normal: v.normal, color: v.color, uv: v.uv }
}

/// Scaling a vertex within a magnitude limit by a factor within a
/// magnitude limit keeps every componentwise product inside `i128`.
pub proof fn lemma_vertex_scale_fits(v: Vertex, s: int, bv: int, bs: int)
    requires
        vertex_in_limit(v, bv),
        -bs <= s <= bs,
        0 <= bv,
        0 <= bs,
        bv * bs <= i128::MAX,
    ensures
        -i128::MAX <= v.pos.x * s <= i128::MAX,
        -i128::MAX <= v.pos.y * s <= i128::MAX,
        -i128::MAX <= v.pos.z * s <= i128::MAX,
        -i128::MAX <= v.pos.w * s <= i128::MAX,
        -i128::MAX <= v.normal.x * s <= i128::MAX,
        -i128::MAX <= v.normal.y * s <= i128::MAX,
        -i128::MAX <= v.normal.z * s <= i128::MAX,
        -i128::MAX <= v.color.x * s <= i128::MAX,
        -i128::MAX <= v.color.y * s <= i128::MAX,
        -i128::MAX <= v.color.z * s <= i128::MAX,
        -i128::MAX <= v.uv.x * s <= i128::MAX,
        -i128::MAX <= v.uv.y * s <= i128::MAX,
{
    lemma_mul_bound(v.pos.x as int, s, bv, bs);
    lemma_mul_bound(v.pos.y as int, s, bv, bs);
    lemma_mul_bound(v.pos.z as int, s, bv, bs);
    lemma_mul_bound(v.pos.w as int, s, bv, bs);
    lemma_mul_bound(v.normal.x as int, s, bv, bs);
    lemma_mul_bound(v.normal.y as int, s, bv, bs);
    lemma_mul_bound(v.normal.z as int, s, bv, bs);
    lemma_mul_bound(v.color.x as int, s, bv, bs);
    lemma_mul_bound(v.color.y as int, s, bv, bs);
    lemma_mul_bound(v.color.z as int, s, bv, bs);
    lemma_mul_bound(v.uv.x as int, s, bv, bs);
    lemma_mul_bound(v.uv.y as int, s, bv, bs);
}

/// A mesh: a vertex pool, an index buffer of vertex triples, and an
/// optional texture.
pub struct Mesh {
    pub vertices: Vec<Vertex>,
    pub indices: Vec<[u32; 3]>,
    pub texture: Option<Texture>,
}

impl Mesh {
    /// An empty, untextured mesh.
    pub fn new() -> (m: Mesh)
        ensures
            m.vertices@.len() == 0,
            m.indices@.len() == 0,
            m.texture is None,
    {
        Mesh { vertices: Vec::new(), indices: Vec::new(), texture: None }
    }

    /// Appends a section of geometry given as parallel attribute
    /// buffers. Missing color or texture-coordinate buffers default to
    /// full white and to the origin, uniformly for the whole section.
    pub fn add_section_from_buffers(
        &mut self,
        triangles: &Vec<[u32; 3]>,
        positions: &Vec<Vec3Fx>,
        normals: &Vec<Vec3Fx>,
        colors: &Vec<Vec3Fx>,
        uvs: &Vec<Vec2Fx>,
    )
        requires
            normals@.len() == positions@.len(),
            colors@.len() == 0 || colors@.len() == positions@.len(),
            uvs@.len() == 0 || uvs@.len() == positions@.len(),
        ensures
            final(self).indices@ == old(self).indices@ + triangles@,
            final(self).texture == old(self).texture,
            final(self).vertices@.len() == old(self).vertices@.len() + positions@.len(),
            forall|i: int|
                0 <= i < old(self).vertices@.len() ==> final(self).vertices@[i] == old(
                    self,
                ).vertices@[i],
            forall|i: int|
                0 <= i < positions@.len() ==> final(self).vertices@[old(self).vertices@.len() + i]
                    == section_vertex(positions@, normals@, colors@, uvs@, i),
    {
        let mut j: usize = 0;
        while j < triangles.len()
            invariant
                0 <= j <= triangles@.len(),
                self.indices@ == old(self).indices@ + triangles@.subrange(0, j as int),
                self.vertices@ == old(self).vertices@,
                self.texture == old(self).texture,
            decreases triangles@.len() - j,
        {
            self.indices.push(triangles[j]);
            proof {
                assert(self.indices@ == old(self).indices@ + triangles@.subrange(
                    0,
                    j as int + 1,
                ));
            }
            j = j + 1;
        }
        proof {
            assert(triangles@.subrange(0, triangles@.len() as int) == triangles@);
        }
        let has_uvs = uvs.len() > 0;
        let has_colors = colors.len() > 0;
        let base: usize = self.vertices.len();
        let mut i: usize = 0;
        while i < positions.len()
            invariant
                0 <= i <= positions@.len(),
                base == old(self).vertices@.len(),
                normals@.len() == positions@.len(),
                colors@.len() == 0 || colors@.len() == positions@.len(),
                uvs@.len() == 0 || uvs@.len() == positions@.len(),
                has_colors == (colors@.len() > 0),
                has_uvs == (uvs@.len() > 0),
                self.indices@ == old(self).indices@ + triangles@,
                self.texture == old(self).texture,
                self.vertices@.len() == base + i,
                forall|k: int| 0 <= k < base ==> self.vertices@[k] == old(self).vertices@[k],
                forall|k: int|
                    0 <= k < i ==> self.vertices@[base + k] == section_vertex(
                        positions@,
                        normals@,
                        colors@,
                        uvs@,
                        k,
                    ),
            decreases positions@.len() - i,
        {
            let p = positions[i];
            let vertex = Vertex::new(
                Vec4Fx { x: p.x, y: p.y, z: p.z, w: SCALE },
                normals[i],
                if has_colors {
                    colors[i]
                } else {
                    Vec3Fx { x: SCALE, y: SCALE, z: SCALE }
                },
                if has_uvs {
                    uvs[i]
                } else {
                    Vec2Fx { x: 0, y: 0 }
                },
            );
            self.vertices.push(vertex);
            i = i + 1;
        }
    }
}

/// The vertex that a section built from parallel buffers holds at
/// offset `i`: the position extended with a unit `w`, and the defaults
/// for whichever optional buffers are absent.
pub open spec fn section_vertex(
    positions: Seq<Vec3Fx>,
    normals: Seq<Vec3Fx>,
    colors: Seq<Vec3Fx>,
    uvs: Seq<Vec2Fx>,
    i: int,
) -> Vertex {
    Vertex {
        pos: Vec4Fx { x: positions[i].x, y: positions[i].y, z: positions[i].z, w: SCALE },
        normal: normals[i],
        color: if colors.len() > 0 {
            colors[i]
        } else {
            Vec3Fx { x: SCALE, y: SCALE, z: SCALE }
        },
        uv: if uvs.len() > 0 {
            uvs[i]
        } else {
            Vec2Fx { x: 0, y: 0 }
        },
    }
}

} // verus!
