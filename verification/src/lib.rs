//! A CPU triangle rasterizer over fixed-point arithmetic: near-plane
//! clipping in homogeneous clip space, perspective division and screen
//! mapping, and an edge-function rasterizer with depth testing and
//! perspective-correct attribute interpolation.

pub mod fx;
pub mod geometry;
pub mod laws;
pub mod texture;
pub mod utils;

pub use crate::geometry::Mesh;
pub use crate::utils::from_u8_rgba;
pub use crate::utils::edge_function;

use vstd::prelude::*;
use vstd::arithmetic::div_mod::lemma_fundamental_div_mod;
use vstd::arithmetic::div_mod::lemma_mod_bound;
use vstd::arithmetic::div_mod::lemma_div_pos_is_pos;
use crate::fx::SCALE;
use crate::fx::quot;
use crate::fx::divt;
use crate::fx::lemma_quot_le;
use crate::fx::lemma_mul_bound;
pub use crate::geometry::Vertex;
use crate::geometry::POS_LIMIT;
use crate::geometry::blend;
use crate::geometry::vertex_is_blend;
use crate::geometry::vertex_in_limit;
pub use crate::texture::Texture;
pub use crate::utils::map_to_range;

verus! {

/// A vertex is in front of the near plane exactly when its clip-space
/// `z` is nonnegative.
pub open spec fn vertex_valid(v: Vertex) -> bool {
    v.pos.z >= 0
}

/// How many of the three vertices lie behind the near plane.
pub open spec fn invalid_count3(a: Vertex, b: Vertex, c: Vertex) -> int {
    (if vertex_valid(a) { 0int } else { 1int })
    + (if vertex_valid(b) { 0int } else { 1int })
    + (if vertex_valid(c) { 0int } else { 1int })
}

/// How many of the triangle's vertices lie behind the near plane.
pub open spec fn invalid_count(t: [Vertex; 3]) -> int {
    invalid_count3(t@[0], t@[1], t@[2])
}

/// Three vertices stably partitioned by validity: vertices in front of
/// the near plane first, each class in its original order.
pub open spec fn reordered3(a: Vertex, b: Vertex, c: Vertex) -> (Vertex, Vertex, Vertex) {
    if vertex_valid(a) {
        if vertex_valid(b) {
            (a, b, c)
        } else if vertex_valid(c) {
            (a, c, b)
        } else {
            (a, b, c)
        }
    } else {
        if vertex_valid(b) {
            if vertex_valid(c) {
                (b, c, a)
            } else {
                (b, a, c)
            }
        } else {
            if vertex_valid(c) {
                (c, a, b)
            } else {
                (a, b, c)
            }
        }
    }
}

/// The triangle's vertices stably partitioned by validity.
pub open spec fn reordered(t: [Vertex; 3]) -> (Vertex, Vertex, Vertex) {
    reordered3(t@[0], t@[1], t@[2])
}

/// The interpolation parameter at which the edge from a front vertex at
/// depth `z0` to a behind vertex at depth `z1` crosses the near plane.
pub open spec fn clip_alpha(z0: int, z1: int) -> int {
    quot(z0 * (SCALE as int), z0 - z1)
}

/// How many triangles the near-plane clipper emits.
pub open spec fn clip_count(t: [Vertex; 3]) -> int {
    if invalid_count(t) == 3 {
        0
    } else if invalid_count(t) == 1 {
        2
    } else {
        1
    }
}

/// The near-plane interpolation parameter is an affine weight: it lies
/// in `[0, SCALE]` (one whole unit) whenever the edge truly straddles
/// the plane.
pub proof fn lemma_clip_alpha_unit(z0: int, z1: int)
    requires
        0 <= z0,
        z1 < 0,
    ensures
        0 <= clip_alpha(z0, z1) <= SCALE,
{
    lemma_quot_le(z0 * (SCALE as int), z0 - z1, SCALE as int);
}

/// Blending a front vertex depth with a behind vertex depth at the
/// near-plane parameter lands exactly on or in front of the plane.
pub proof fn lemma_blend_hits_front(z0: int, z1: int)
    requires
        0 <= z0,
        z1 < 0,
    ensures
        blend(z0, z1, clip_alpha(z0, z1)) >= 0,
{
    let d = z0 - z1;
    let a = clip_alpha(z0, z1);
    lemma_div_pos_is_pos(z0 * (SCALE as int), d);
    lemma_fundamental_div_mod(z0 * (SCALE as int), d);
    lemma_mod_bound(z0 * (SCALE as int), d);
    assert(z0 * ((SCALE as int) - a) + z1 * a == z0 * (SCALE as int) - a * d) by (nonlinear_arith)
        requires
            d == z0 - z1,
    ;
    assert(a * d == d * a) by (nonlinear_arith);
    let body = z0 * ((SCALE as int) - a) + z1 * a;
    assert(body >= 0);
    lemma_div_pos_is_pos(body, SCALE as int);
}

/// An affine blend of two scalars within a magnitude limit stays within
/// that limit.
pub proof fn lemma_blend_in_limit(c0: int, c1: int, alpha: int, lim: int)
    requires
        -lim <= c0 <= lim,
        -lim <= c1 <= lim,
        0 <= alpha <= SCALE,
        0 <= lim,
    ensures
        -lim <= blend(c0, c1, alpha) <= lim,
{
    let s = SCALE as int;
    let body = c0 * (s - alpha) + c1 * alpha;
    assert(-(lim * s) <= body <= lim * s) by (nonlinear_arith)
        requires
            body == c0 * (s - alpha) + c1 * alpha,
            -lim <= c0 <= lim,
            -lim <= c1 <= lim,
            0 <= alpha <= s,
            0 <= lim,
    ;
    if body >= 0 {
        lemma_quot_le(body, s, lim);
    } else {
        lemma_quot_le(-body, s, lim);
        assert(blend(c0, c1, alpha) == -quot(-body, s));
    }
}

/// One component of the near-plane intersection: the affine combination
/// `c0 * (1 - alpha) + c1 * alpha` with a single rounding.
fn blend_component(c0: i128, c1: i128, alpha: i128) -> (r: i128)
    requires
        -POS_LIMIT <= c0 <= POS_LIMIT,
        -POS_LIMIT <= c1 <= POS_LIMIT,
        0 <= alpha <= SCALE,
    ensures
        r == blend(c0 as int, c1 as int, alpha as int),
        -POS_LIMIT <= r <= POS_LIMIT,
{
    proof {
        lemma_mul_bound(c0 as int, (SCALE - alpha) as int, POS_LIMIT as int, SCALE as int);
        lemma_mul_bound(c1 as int, alpha as int, POS_LIMIT as int, SCALE as int);
        lemma_blend_in_limit(c0 as int, c1 as int, alpha as int, POS_LIMIT as int);
    }
    let body: i128 = c0 * (SCALE - alpha) + c1 * alpha;
    divt(body, SCALE)
}

/// The near-plane intersection vertex along the edge from `a` to `b`:
/// one affine weight applied identically to position, normal, color and
/// texture coordinate.
pub fn interpolate(a: &Vertex, b: &Vertex, alpha: i128) -> (r: Vertex)
    requires
        0 <= alpha <= SCALE,
        vertex_in_limit(*a, POS_LIMIT as int),
        vertex_in_limit(*b, POS_LIMIT as int),
    ensures
        vertex_is_blend(r, *a, *b, alpha as int),
        vertex_in_limit(r, POS_LIMIT as int),
{
    Vertex {
        pos: crate::fx::Vec4Fx {
            x: blend_component(a.pos.x, b.pos.x, alpha),
            y: blend_component(a.pos.y, b.pos.y, alpha),
            z: blend_component(a.pos.z, b.pos.z, alpha),
            w: blend_component(a.pos.w, b.pos.w, alpha),
        },
        normal: crate::fx::Vec3Fx {
            x: blend_component(a.normal.x, b.normal.x, alpha),
            y: blend_component(a.normal.y, b.normal.y, alpha),
            z: blend_component(a.normal.z, b.normal.z, alpha),
        },
        color: crate::fx::Vec3Fx {
            x: blend_component(a.color.x, b.color.x, alpha),
            y: blend_component(a.color.y, b.color.y, alpha),
            z: blend_component(a.color.z, b.color.z, alpha),
        },
        uv: crate::fx::Vec2Fx {
            x: blend_component(a.uv.x, b.uv.x, alpha),
            y: blend_component(a.uv.y, b.uv.y, alpha),
        },
    }
}

/// The near-plane interpolation parameter for an edge that straddles
/// the plane, as an executable computation.
fn near_alpha(z0: i128, z1: i128) -> (a: i128)
    requires
        0 <= z0 <= POS_LIMIT,
        -POS_LIMIT <= z1 < 0,
    ensures
        a == clip_alpha(z0 as int, z1 as int),
        0 <= a <= SCALE,
{
    proof {
        lemma_clip_alpha_unit(z0 as int, z1 as int);
    }
    divt(z0 * SCALE, z0 - z1)
}

/// Clips one clip-space triangle against the near plane `z = 0`,
/// emitting zero, one or two triangles whose vertices all satisfy
/// `pos.z >= 0`. A triangle fully in front passes through unchanged;
/// one fully behind is dropped; the straddling cases replace behind
/// vertices by near-plane intersections of the straddling edges.
pub fn clip_triangle(tri: &[Vertex; 3]) -> (out: Vec<[Vertex; 3]>)
    requires
        vertex_in_limit(tri@[0], POS_LIMIT as int),
        vertex_in_limit(tri@[1], POS_LIMIT as int),
        vertex_in_limit(tri@[2], POS_LIMIT as int),
    ensures
        out@.len() == clip_count(*tri),
        invalid_count(*tri) == 0 ==> (forall|j: int| 0 <= j < 3 ==> out@[0]@[j] == tri@[j]),
        forall|k: int, j: int|
            0 <= k < out@.len() && 0 <= j < 3 ==> vertex_valid(#[trigger] out@[k]@[j]),
        forall|k: int, j: int|
            0 <= k < out@.len() && 0 <= j < 3 ==> vertex_in_limit(
                #[trigger] out@[k]@[j],
                POS_LIMIT as int,
            ),
        invalid_count(*tri) == 2 ==> out@[0]@[0] == reordered(*tri).0,
        invalid_count(*tri) == 2 ==> vertex_is_blend(
            out@[0]@[1],
            reordered(*tri).0,
            reordered(*tri).1,
            clip_alpha(reordered(*tri).0.pos.z as int, reordered(*tri).1.pos.z as int),
        ),
        invalid_count(*tri) == 2 ==> vertex_is_blend(
            out@[0]@[2],
            reordered(*tri).0,
            reordered(*tri).2,
            clip_alpha(reordered(*tri).0.pos.z as int, reordered(*tri).2.pos.z as int),
        ),
        invalid_count(*tri) == 1 ==> out@[0]@[0] == reordered(*tri).0 && out@[0]@[1] == reordered(
            *tri,
        ).1 && out@[1]@[1] == reordered(*tri).1 && out@[1]@[0] == out@[0]@[2],
        invalid_count(*tri) == 1 ==> vertex_is_blend(
            out@[0]@[2],
            reordered(*tri).0,
            reordered(*tri).2,
            clip_alpha(reordered(*tri).0.pos.z as int, reordered(*tri).2.pos.z as int),
        ),
        invalid_count(*tri) == 1 ==> vertex_is_blend(
            out@[1]@[2],
            reordered(*tri).1,
            reordered(*tri).2,
            clip_alpha(reordered(*tri).1.pos.z as int, reordered(*tri).2.pos.z as int),
        ),
{
    let t0 = tri[0];
    let t1 = tri[1];
    let t2 = tri[2];
    let ok0 = t0.pos.z >= 0;
    let ok1 = t1.pos.z >= 0;
    let ok2 = t2.pos.z >= 0;
    let ord0: Vertex;
    let ord1: Vertex;
    let ord2: Vertex;
    if ok0 {
        if ok1 {
            ord0 = t0;
            ord1 = t1;
            ord2 = t2;
        } else if ok2 {
            ord0 = t0;
            ord1 = t2;
            ord2 = t1;
        } else {
            ord0 = t0;
            ord1 = t1;
            ord2 = t2;
        }
    } else {
        if ok1 {
            if ok2 {
                ord0 = t1;
                ord1 = t2;
                ord2 = t0;
            } else {
                ord0 = t1;
                ord1 = t0;
                ord2 = t2;
            }
        } else {
            if ok2 {
                ord0 = t2;
                ord1 = t0;
                ord2 = t1;
            } else {
                ord0 = t0;
                ord1 = t1;
                ord2 = t2;
            }
        }
    }
    proof {
        assert(ord0 == reordered(*tri).0);
        assert(ord1 == reordered(*tri).1);
        assert(ord2 == reordered(*tri).2);
    }
    let num_invalid: u32 = (if ok0 { 0u32 } else { 1u32 }) + (if ok1 { 0u32 } else { 1u32 }) + (
    if ok2 {
        0u32
    } else {
        1u32
    });
    let mut out: Vec<[Vertex; 3]> = Vec::new();
    if num_invalid == 3 {
        // fully behind the near plane: nothing to emit
    } else if num_invalid == 2 {
        let alpha01 = near_alpha(ord0.pos.z, ord1.pos.z);
        let alpha02 = near_alpha(ord0.pos.z, ord2.pos.z);
        let prime1 = interpolate(&ord0, &ord1, alpha01);
        let prime2 = interpolate(&ord0, &ord2, alpha02);
        proof {
            lemma_blend_hits_front(ord0.pos.z as int, ord1.pos.z as int);
            lemma_blend_hits_front(ord0.pos.z as int, ord2.pos.z as int);
        }
        out.push([ord0, prime1, prime2]);
    } else if num_invalid == 1 {
        let alpha02 = near_alpha(ord0.pos.z, ord2.pos.z);
        let alpha12 = near_alpha(ord1.pos.z, ord2.pos.z);
        let prime0 = interpolate(&ord0, &ord2, alpha02);
        let prime1 = interpolate(&ord1, &ord2, alpha12);
        proof {
            lemma_blend_hits_front(ord0.pos.z as int, ord2.pos.z as int);
            lemma_blend_hits_front(ord1.pos.z as int, ord2.pos.z as int);
        }
        out.push([ord0, ord1, prime0]);
        out.push([prime0, ord1, prime1]);
    } else {
        out.push([ord0, ord1, ord2]);
    }
    out
}

/// Magnitude limit on the fixed-point screen coordinates the
/// rasterizer accepts; triangles mapped farther out are dropped as
/// numerically degenerate.
pub const SCREEN_LIMIT: i128 = 0x2_0000_0000;

/// Magnitude limit on the reciprocal-scaled attributes; triangles
/// whose attributes blow past it are dropped as numerically
/// degenerate.
pub const ATTR_LIMIT: i128 = 0x40_0000_0000;

/// Largest supported viewport extent, in pixels.
pub const VIEWPORT_LIMIT: usize = 8192;

/// The reciprocal `1 / w` of a vertex's homogeneous coordinate, in
/// fixed point.
pub open spec fn rec_of(v: Vertex) -> int {
    crate::fx::fdiv(SCALE as int, v.pos.w as int)
}

/// Normalized-device x coordinate: clip x scaled by the reciprocal.
pub open spec fn ndc_x(v: Vertex) -> int {
    crate::fx::fmul(v.pos.x as int, rec_of(v))
}

/// Normalized-device y coordinate: clip y scaled by the reciprocal.
pub open spec fn ndc_y(v: Vertex) -> int {
    crate::fx::fmul(v.pos.y as int, rec_of(v))
}

/// Screen-space x: NDC x in `[-1, 1]` mapped onto `[0, vw]`.
pub open spec fn screen_x(v: Vertex, vw: int) -> int {
    crate::utils::map_to_range_spec(ndc_x(v), -(SCALE as int), SCALE as int, 0, vw * SCALE)
}

/// Screen-space y: NDC y in `[-1, 1]` mapped, flipped, onto `[0, vh]`.
pub open spec fn screen_y(v: Vertex, vh: int) -> int {
    crate::utils::map_to_range_spec(-ndc_y(v), -(SCALE as int), SCALE as int, 0, vh * SCALE)
}

/// A vertex attribute pre-scaled by the reciprocal, for
/// perspective-correct interpolation.
pub open spec fn pre_uv_x(v: Vertex) -> int {
    crate::fx::fmul(v.uv.x as int, rec_of(v))
}

/// See `pre_uv_x`.
pub open spec fn pre_uv_y(v: Vertex) -> int {
    crate::fx::fmul(v.uv.y as int, rec_of(v))
}

/// See `pre_uv_x`.
pub open spec fn pre_col_r(v: Vertex) -> int {
    crate::fx::fmul(v.color.x as int, rec_of(v))
}

/// See `pre_uv_x`.
pub open spec fn pre_col_g(v: Vertex) -> int {
    crate::fx::fmul(v.color.y as int, rec_of(v))
}

/// See `pre_uv_x`.
pub open spec fn pre_col_b(v: Vertex) -> int {
    crate::fx::fmul(v.color.z as int, rec_of(v))
}

/// Twice the signed area of the screen-mapped triangle.
pub open spec fn tri_area(v0: Vertex, v1: Vertex, v2: Vertex, vw: int, vh: int) -> int {
    crate::utils::edge_spec(
        screen_x(v0, vw),
        screen_y(v0, vh),
        screen_x(v1, vw),
        screen_y(v1, vh),
        screen_x(v2, vw),
        screen_y(v2, vh),
    )
}

/// The triangle is numerically fit to rasterize: finite reciprocals,
/// screen coordinates and scaled attributes in range, nonzero area.
pub open spec fn raster_ok(v0: Vertex, v1: Vertex, v2: Vertex, vw: int, vh: int) -> bool {
    &&& v0.pos.w != 0
    &&& v1.pos.w != 0
    &&& v2.pos.w != 0
    &&& -SCREEN_LIMIT <= screen_x(v0, vw) <= SCREEN_LIMIT
    &&& -SCREEN_LIMIT <= screen_y(v0, vh) <= SCREEN_LIMIT
    &&& -SCREEN_LIMIT <= screen_x(v1, vw) <= SCREEN_LIMIT
    &&& -SCREEN_LIMIT <= screen_y(v1, vh) <= SCREEN_LIMIT
    &&& -SCREEN_LIMIT <= screen_x(v2, vw) <= SCREEN_LIMIT
    &&& -SCREEN_LIMIT <= screen_y(v2, vh) <= SCREEN_LIMIT
    &&& -ATTR_LIMIT <= pre_uv_x(v0) <= ATTR_LIMIT
    &&& -ATTR_LIMIT <= pre_uv_y(v0) <= ATTR_LIMIT
    &&& -ATTR_LIMIT <= pre_uv_x(v1) <= ATTR_LIMIT
    &&& -ATTR_LIMIT <= pre_uv_y(v1) <= ATTR_LIMIT
    &&& -ATTR_LIMIT <= pre_uv_x(v2) <= ATTR_LIMIT
    &&& -ATTR_LIMIT <= pre_uv_y(v2) <= ATTR_LIMIT
    &&& -ATTR_LIMIT <= pre_col_r(v0) <= ATTR_LIMIT
    &&& -ATTR_LIMIT <= pre_col_g(v0) <= ATTR_LIMIT
    &&& -ATTR_LIMIT <= pre_col_b(v0) <= ATTR_LIMIT
    &&& -ATTR_LIMIT <= pre_col_r(v1) <= ATTR_LIMIT
    &&& -ATTR_LIMIT <= pre_col_g(v1) <= ATTR_LIMIT
    &&& -ATTR_LIMIT <= pre_col_b(v1) <= ATTR_LIMIT
    &&& -ATTR_LIMIT <= pre_col_r(v2) <= ATTR_LIMIT
    &&& -ATTR_LIMIT <= pre_col_g(v2) <= ATTR_LIMIT
    &&& -ATTR_LIMIT <= pre_col_b(v2) <= ATTR_LIMIT
    &&& tri_area(v0, v1, v2, vw, vh) != 0
}

/// The smaller of two integers.
pub open spec fn imin(a: int, b: int) -> int {
    if a <= b {
        a
    } else {
        b
    }
}

/// The larger of two integers.
pub open spec fn imax(a: int, b: int) -> int {
    if a >= b {
        a
    } else {
        b
    }
}

/// The pixel column a screen x coordinate falls in, clamped into the
/// viewport.
pub open spec fn pixel_col(v: Vertex, vw: int) -> int {
    crate::fx::clamp_spec(quot(screen_x(v, vw), SCALE as int), 0, vw - 1)
}

/// The pixel row a screen y coordinate falls in, clamped into the
/// viewport.
pub open spec fn pixel_row(v: Vertex, vh: int) -> int {
    crate::fx::clamp_spec(quot(screen_y(v, vh), SCALE as int), 0, vh - 1)
}

/// Left column of the bounding box.
pub open spec fn box_x0(v0: Vertex, v1: Vertex, v2: Vertex, vw: int) -> int {
    imin(imin(pixel_col(v0, vw), pixel_col(v1, vw)), pixel_col(v2, vw))
}

/// Right column of the bounding box.
pub open spec fn box_x1(v0: Vertex, v1: Vertex, v2: Vertex, vw: int) -> int {
    imax(imax(pixel_col(v0, vw), pixel_col(v1, vw)), pixel_col(v2, vw))
}

/// Top row of the bounding box.
pub open spec fn box_y0(v0: Vertex, v1: Vertex, v2: Vertex, vh: int) -> int {
    imin(imin(pixel_row(v0, vh), pixel_row(v1, vh)), pixel_row(v2, vh))
}

/// Bottom row of the bounding box.
pub open spec fn box_y1(v0: Vertex, v1: Vertex, v2: Vertex, vh: int) -> int {
    imax(imax(pixel_row(v0, vh), pixel_row(v1, vh)), pixel_row(v2, vh))
}

/// The edge weight of the pixel `(x, y)` against one directed edge of
/// the screen triangle.
pub open spec fn pix_edge(x: int, y: int, a: Vertex, b: Vertex, vw: int, vh: int) -> int {
    crate::utils::edge_spec(
        x * SCALE,
        y * SCALE,
        screen_x(a, vw),
        screen_y(a, vh),
        screen_x(b, vw),
        screen_y(b, vh),
    )
}

/// A pixel is covered exactly when its three edge weights all share
/// the sign of the triangle's area, so that the normalized weights are
/// all nonnegative.
pub open spec fn pix_inside(v0: Vertex, v1: Vertex, v2: Vertex, vw: int, vh: int, x: int, y: int) -> bool {
    let e0 = pix_edge(x, y, v1, v2, vw, vh);
    let e1 = pix_edge(x, y, v2, v0, vw, vh);
    let e2 = pix_edge(x, y, v0, v1, vw, vh);
    let area = tri_area(v0, v1, v2, vw, vh);
    (area > 0 && e0 >= 0 && e1 >= 0 && e2 >= 0) || (area < 0 && e0 <= 0 && e1 <= 0 && e2 <= 0)
}

/// The denominator of the perspective correction at a pixel: the edge
/// weights blended against the three reciprocals.
pub open spec fn pix_denom(v0: Vertex, v1: Vertex, v2: Vertex, vw: int, vh: int, x: int, y: int) -> int {
    pix_edge(x, y, v1, v2, vw, vh) * rec_of(v0) + pix_edge(x, y, v2, v0, vw, vh) * rec_of(v1)
        + pix_edge(x, y, v0, v1, vw, vh) * rec_of(v2)
}

/// The perspective-corrected reciprocal depth written at a covered
/// pixel.
pub open spec fn pix_depth(v0: Vertex, v1: Vertex, v2: Vertex, vw: int, vh: int, x: int, y: int) -> int {
    quot(tri_area(v0, v1, v2, vw, vh) * (SCALE as int) * (SCALE as int), pix_denom(v0, v1, v2, vw, vh, x, y))
}

/// A perspective-corrected attribute at a pixel, from the three
/// pre-scaled attribute values.
pub open spec fn pix_attr(v0: Vertex, v1: Vertex, v2: Vertex, vw: int, vh: int, x: int, y: int, a0: int, a1: int, a2: int) -> int {
    quot(
        (pix_edge(x, y, v1, v2, vw, vh) * a0 + pix_edge(x, y, v2, v0, vw, vh) * a1 + pix_edge(
            x,
            y,
            v0,
            v1,
            vw,
            vh,
        ) * a2) * (SCALE as int),
        pix_denom(v0, v1, v2, vw, vh, x, y),
    )
}

/// An 8-bit color channel from a fixed-point value nominally in
/// `[0, 1]`: saturated into that interval, then truncated to 0..=255.
pub open spec fn channel_spec(c: int) -> int {
    quot(crate::fx::clamp_spec(c, 0, SCALE as int) * 255, SCALE as int)
}

/// What the rasterizer would write at pixel `(x, y)`: `None` if the
/// pixel is uncovered or numerically degenerate there, otherwise the
/// depth and packed color of the fragment.
pub open spec fn pix_candidate(
    v0: Vertex,
    v1: Vertex,
    v2: Vertex,
    tex: Option<Texture>,
    vw: int,
    vh: int,
    x: int,
    y: int,
) -> Option<(int, int)> {
    if !pix_inside(v0, v1, v2, vw, vh, x, y) {
        Option::None
    } else if pix_denom(v0, v1, v2, vw, vh, x, y) == 0 {
        Option::None
    } else {
        let d = pix_depth(v0, v1, v2, vw, vh, x, y);
        match tex {
            Option::Some(t) => {
                let uc = pix_attr(v0, v1, v2, vw, vh, x, y, pre_uv_x(v0), pre_uv_x(v1), pre_uv_x(v2));
                let vc = pix_attr(v0, v1, v2, vw, vh, x, y, pre_uv_y(v0), pre_uv_y(v1), pre_uv_y(v2));
                if -(crate::texture::UV_LIMIT as int) <= uc <= crate::texture::UV_LIMIT as int
                    && -(crate::texture::UV_LIMIT as int) <= vc <= crate::texture::UV_LIMIT as int {
                    Option::Some(
                        (
                            d,
                            t.data@[crate::texture::texel_coord(vc, t.height as int) * t.width
                                + crate::texture::texel_coord(uc, t.width as int)] as int,
                        ),
                    )
                } else {
                    Option::None
                }
            },
            Option::None => {
                let cr = pix_attr(v0, v1, v2, vw, vh, x, y, pre_col_r(v0), pre_col_r(v1), pre_col_r(v2));
                let cg = pix_attr(v0, v1, v2, vw, vh, x, y, pre_col_g(v0), pre_col_g(v1), pre_col_g(v2));
                let cb = pix_attr(v0, v1, v2, vw, vh, x, y, pre_col_b(v0), pre_col_b(v1), pre_col_b(v2));
                Option::Some(
                    (
                        d,
                        crate::utils::color_pack(
                            255,
                            channel_spec(cr),
                            channel_spec(cg),
                            channel_spec(cb),
                        ),
                    ),
                )
            },
        }
    }
}

/// One fragment applied to the frame and depth buffers: the write
/// happens exactly when the fragment is strictly closer than what the
/// depth buffer holds.
pub open spec fn apply_fragment(
    frame: Seq<u32>,
    depth: Seq<i128>,
    j: int,
    d: int,
    c: int,
) -> (Seq<u32>, Seq<i128>) {
    if d < depth[j] {
        (frame.update(j, c as u32), depth.update(j, d as i128))
    } else {
        (frame, depth)
    }
}

/// The buffers after the first `n` pixels of the bounding box have
/// been visited, row-major from its top-left corner.
pub open spec fn raster_fold(
    v0: Vertex,
    v1: Vertex,
    v2: Vertex,
    tex: Option<Texture>,
    vw: int,
    vh: int,
    frame: Seq<u32>,
    depth: Seq<i128>,
    n: nat,
) -> (Seq<u32>, Seq<i128>)
    decreases n,
{
    if n == 0 {
        (frame, depth)
    } else {
        let prev = raster_fold(v0, v1, v2, tex, vw, vh, frame, depth, (n - 1) as nat);
        let bw = box_x1(v0, v1, v2, vw) - box_x0(v0, v1, v2, vw) + 1;
        let x = box_x0(v0, v1, v2, vw) + (n - 1) % bw;
        let y = box_y0(v0, v1, v2, vh) + (n - 1) / bw;
        let j = y * vw + x;
        match pix_candidate(v0, v1, v2, tex, vw, vh, x, y) {
            Option::Some(dc) => apply_fragment(prev.0, prev.1, j, dc.0, dc.1),
            Option::None => prev,
        }
    }
}

/// The buffers after one triangle has been rasterized: every bounding
/// box pixel visited if the triangle was fit to rasterize, and
/// untouched buffers otherwise.
pub open spec fn raster_model(
    v0: Vertex,
    v1: Vertex,
    v2: Vertex,
    tex: Option<Texture>,
    vw: int,
    vh: int,
    frame: Seq<u32>,
    depth: Seq<i128>,
) -> (Seq<u32>, Seq<i128>) {
    if raster_ok(v0, v1, v2, vw, vh) {
        let bw = box_x1(v0, v1, v2, vw) - box_x0(v0, v1, v2, vw) + 1;
        let bh = box_y1(v0, v1, v2, vh) - box_y0(v0, v1, v2, vh) + 1;
        raster_fold(v0, v1, v2, tex, vw, vh, frame, depth, (bw * bh) as nat)
    } else {
        (frame, depth)
    }
}

/// Magnitude limit on normalized-device coordinates after perspective
/// division.
pub const NDC_LIMIT: i128 = 0x1000_0000_0000_0000_0000;

/// Maps one normalized-device coordinate onto a screen axis of
/// `extent` pixels, in fixed point.
fn to_screen(ndc: i128, extent: usize) -> (s: i128)
    requires
        -NDC_LIMIT <= ndc <= NDC_LIMIT,
        1 <= extent <= VIEWPORT_LIMIT,
    ensures
        s == crate::utils::map_to_range_spec(
            ndc as int,
            -(SCALE as int),
            SCALE as int,
            0,
            extent * SCALE,
        ),
{
    let ex: i128 = (extent as i128) * SCALE;
    proof {
        lemma_mul_bound(
            ndc + SCALE,
            ex as int,
            NDC_LIMIT + SCALE,
            (VIEWPORT_LIMIT as int) * (SCALE as int),
        );
        crate::fx::lemma_quot_bounds((ndc - (-SCALE)) * (ex - 0), 2 * SCALE);
    }
    map_to_range(ndc, -SCALE, SCALE, 0, ex)
}

/// Rasterizes one screen-bound triangle: maps it to screen space,
/// walks its clamped bounding box, and for every covered pixel that
/// passes the strict depth test writes the perspective-correct texture
/// sample or vertex color and the corrected depth. A triangle that is
/// numerically degenerate (zero `w`, zero area, or coordinates past
/// the rasterizer's limits) leaves both buffers untouched.
#[verifier::loop_isolation(false)]
#[verifier::rlimit(100)]
pub fn rasterize_triangle(
    triangle: &[Vertex; 3],
    texture: &Option<Texture>,
    buffer: &mut Vec<u32>,
    z_buffer: &mut Vec<i128>,
    viewport: (usize, usize),
)
    requires
        vertex_in_limit(triangle@[0], POS_LIMIT as int),
        vertex_in_limit(triangle@[1], POS_LIMIT as int),
        vertex_in_limit(triangle@[2], POS_LIMIT as int),
        1 <= viewport.0 <= VIEWPORT_LIMIT,
        1 <= viewport.1 <= VIEWPORT_LIMIT,
        old(buffer)@.len() == viewport.0 * viewport.1,
        old(z_buffer)@.len() == viewport.0 * viewport.1,
        crate::texture::texture_opt_wf(*texture),
    ensures
        final(buffer)@ == raster_model(
            triangle@[0],
            triangle@[1],
            triangle@[2],
            *texture,
            viewport.0 as int,
            viewport.1 as int,
            old(buffer)@,
            old(z_buffer)@,
        ).0,
        final(z_buffer)@ == raster_model(
            triangle@[0],
            triangle@[1],
            triangle@[2],
            *texture,
            viewport.0 as int,
            viewport.1 as int,
            old(buffer)@,
            old(z_buffer)@,
        ).1,
        final(buffer)@.len() == old(buffer)@.len(),
        final(z_buffer)@.len() == old(z_buffer)@.len(),
{
    let vw: usize = viewport.0;
    let vh: usize = viewport.1;
    let t0 = triangle[0];
    let t1 = triangle[1];
    let t2 = triangle[2];
    let ghost gvw: int = vw as int;
    let ghost gvh: int = vh as int;
    if t0.pos.w == 0 || t1.pos.w == 0 || t2.pos.w == 0 {
        return ;
    }
    let rec0 = crate::fx::fx_div(SCALE, t0.pos.w);
    let rec1 = crate::fx::fx_div(SCALE, t1.pos.w);
    let rec2 = crate::fx::fx_div(SCALE, t2.pos.w);
    proof {
        crate::fx::lemma_quot_bounds((SCALE as int) * (SCALE as int), t0.pos.w as int);
        crate::fx::lemma_quot_bounds((SCALE as int) * (SCALE as int), t1.pos.w as int);
        crate::fx::lemma_quot_bounds((SCALE as int) * (SCALE as int), t2.pos.w as int);
        lemma_mul_bound(t0.pos.x as int, rec0 as int, POS_LIMIT as int, 0x1_0000_0000);
        lemma_mul_bound(t0.pos.y as int, rec0 as int, POS_LIMIT as int, 0x1_0000_0000);
        lemma_mul_bound(t1.pos.x as int, rec1 as int, POS_LIMIT as int, 0x1_0000_0000);
        lemma_mul_bound(t1.pos.y as int, rec1 as int, POS_LIMIT as int, 0x1_0000_0000);
        lemma_mul_bound(t2.pos.x as int, rec2 as int, POS_LIMIT as int, 0x1_0000_0000);
        lemma_mul_bound(t2.pos.y as int, rec2 as int, POS_LIMIT as int, 0x1_0000_0000);
    }
    let ndx0 = crate::fx::fx_mul(t0.pos.x, rec0);
    let ndy0 = crate::fx::fx_mul(t0.pos.y, rec0);
    let ndx1 = crate::fx::fx_mul(t1.pos.x, rec1);
    let ndy1 = crate::fx::fx_mul(t1.pos.y, rec1);
    let ndx2 = crate::fx::fx_mul(t2.pos.x, rec2);
    let ndy2 = crate::fx::fx_mul(t2.pos.y, rec2);
    proof {
        crate::fx::lemma_quot_bounds(t0.pos.x as int * rec0 as int, SCALE as int);
        crate::fx::lemma_quot_bounds(t0.pos.y as int * rec0 as int, SCALE as int);
        crate::fx::lemma_quot_bounds(t1.pos.x as int * rec1 as int, SCALE as int);
        crate::fx::lemma_quot_bounds(t1.pos.y as int * rec1 as int, SCALE as int);
        crate::fx::lemma_quot_bounds(t2.pos.x as int * rec2 as int, SCALE as int);
        crate::fx::lemma_quot_bounds(t2.pos.y as int * rec2 as int, SCALE as int);
    }
    let sx0 = to_screen(ndx0, vw);
    let sy0 = to_screen(-ndy0, vh);
    let sx1 = to_screen(ndx1, vw);
    let sy1 = to_screen(-ndy1, vh);
    let sx2 = to_screen(ndx2, vw);
    let sy2 = to_screen(-ndy2, vh);
    proof {
        assert(sx0 == screen_x(triangle@[0], gvw));
        assert(sy0 == screen_y(triangle@[0], gvh));
        assert(sx1 == screen_x(triangle@[1], gvw));
        assert(sy1 == screen_y(triangle@[1], gvh));
        assert(sx2 == screen_x(triangle@[2], gvw));
        assert(sy2 == screen_y(triangle@[2], gvh));
    }
    if sx0 > SCREEN_LIMIT || sx0 < -SCREEN_LIMIT || sy0 > SCREEN_LIMIT || sy0 < -SCREEN_LIMIT
        || sx1 > SCREEN_LIMIT || sx1 < -SCREEN_LIMIT || sy1 > SCREEN_LIMIT || sy1 < -SCREEN_LIMIT
        || sx2 > SCREEN_LIMIT || sx2 < -SCREEN_LIMIT || sy2 > SCREEN_LIMIT || sy2
        < -SCREEN_LIMIT {
        return ;
    }
    proof {
        crate::geometry::lemma_vertex_scale_fits(
            t0,
            rec0 as int,
            POS_LIMIT as int,
            0x1_0000_0000,
        );
        crate::geometry::lemma_vertex_scale_fits(
            t1,
            rec1 as int,
            POS_LIMIT as int,
            0x1_0000_0000,
        );
        crate::geometry::lemma_vertex_scale_fits(
            t2,
            rec2 as int,
            POS_LIMIT as int,
            0x1_0000_0000,
        );
    }
    let v0p = t0.mul(rec0);
    let v1p = t1.mul(rec1);
    let v2p = t2.mul(rec2);
    if v0p.uv.x > ATTR_LIMIT || v0p.uv.x < -ATTR_LIMIT || v0p.uv.y > ATTR_LIMIT || v0p.uv.y
        < -ATTR_LIMIT || v1p.uv.x > ATTR_LIMIT || v1p.uv.x < -ATTR_LIMIT || v1p.uv.y > ATTR_LIMIT
        || v1p.uv.y < -ATTR_LIMIT || v2p.uv.x > ATTR_LIMIT || v2p.uv.x < -ATTR_LIMIT || v2p.uv.y
        > ATTR_LIMIT || v2p.uv.y < -ATTR_LIMIT || v0p.color.x > ATTR_LIMIT || v0p.color.x
        < -ATTR_LIMIT || v0p.color.y > ATTR_LIMIT || v0p.color.y < -ATTR_LIMIT || v0p.color.z
        > ATTR_LIMIT || v0p.color.z < -ATTR_LIMIT || v1p.color.x > ATTR_LIMIT || v1p.color.x
        < -ATTR_LIMIT || v1p.color.y > ATTR_LIMIT || v1p.color.y < -ATTR_LIMIT || v1p.color.z
        > ATTR_LIMIT || v1p.color.z < -ATTR_LIMIT || v2p.color.x > ATTR_LIMIT || v2p.color.x
        < -ATTR_LIMIT || v2p.color.y > ATTR_LIMIT || v2p.color.y < -ATTR_LIMIT || v2p.color.z
        > ATTR_LIMIT || v2p.color.z < -ATTR_LIMIT {
        return ;
    }
    let area = crate::utils::edge_function(
        crate::fx::Vec2Fx { x: sx0, y: sy0 },
        crate::fx::Vec2Fx { x: sx1, y: sy1 },
        crate::fx::Vec2Fx { x: sx2, y: sy2 },
    );
    proof {
        assert(area == tri_area(triangle@[0], triangle@[1], triangle@[2], gvw, gvh));
        crate::utils::lemma_edge_bound(
            sx0 as int,
            sy0 as int,
            sx1 as int,
            sy1 as int,
            sx2 as int,
            sy2 as int,
            SCREEN_LIMIT as int,
        );
    }
    if area == 0 {
        return ;
    }
    assert(raster_ok(triangle@[0], triangle@[1], triangle@[2], gvw, gvh));
    let vwi: i128 = vw as i128;
    let vhi: i128 = vh as i128;
    let c0 = crate::fx::clamp_i(divt(sx0, SCALE), 0, vwi - 1);
    let c1 = crate::fx::clamp_i(divt(sx1, SCALE), 0, vwi - 1);
    let c2 = crate::fx::clamp_i(divt(sx2, SCALE), 0, vwi - 1);
    let r0 = crate::fx::clamp_i(divt(sy0, SCALE), 0, vhi - 1);
    let r1 = crate::fx::clamp_i(divt(sy1, SCALE), 0, vhi - 1);
    let r2 = crate::fx::clamp_i(divt(sy2, SCALE), 0, vhi - 1);
    let mut xm: i128 = c0;
    if c1 < xm {
        xm = c1;
    }
    if c2 < xm {
        xm = c2;
    }
    let mut xx: i128 = c0;
    if c1 > xx {
        xx = c1;
    }
    if c2 > xx {
        xx = c2;
    }
    let mut ym: i128 = r0;
    if r1 < ym {
        ym = r1;
    }
    if r2 < ym {
        ym = r2;
    }
    let mut yx: i128 = r0;
    if r1 > yx {
        yx = r1;
    }
    if r2 > yx {
        yx = r2;
    }
    proof {
        assert(xm == box_x0(triangle@[0], triangle@[1], triangle@[2], gvw));
        assert(xx == box_x1(triangle@[0], triangle@[1], triangle@[2], gvw));
        assert(ym == box_y0(triangle@[0], triangle@[1], triangle@[2], gvh));
        assert(yx == box_y1(triangle@[0], triangle@[1], triangle@[2], gvh));
    }
    let x_min: usize = xm as usize;
    let x_max: usize = xx as usize;
    let y_min: usize = ym as usize;
    let y_max: usize = yx as usize;
    let bw: usize = x_max - x_min + 1;
    let bh: usize = y_max - y_min + 1;
    proof {
        assert(bw * bh <= vw * vh && vw * vh <= 0x400_0000) by (nonlinear_arith)
            requires
                1 <= bw <= vw,
                1 <= bh <= vh,
                vw <= VIEWPORT_LIMIT,
                vh <= VIEWPORT_LIMIT,
        ;
    }
    let total: usize = bw * bh;
    let ghost tv0 = triangle@[0];
    let ghost tv1 = triangle@[1];
    let ghost tv2 = triangle@[2];
    let ghost frame0 = buffer@;
    let ghost depth0 = z_buffer@;
    let ghost vplen: int = (vw * vh) as int;
    let mut i: usize = 0;
    while i < total
        invariant
            0 <= i <= total,
            buffer@ == raster_fold(tv0, tv1, tv2, *texture, gvw, gvh, frame0, depth0, i as nat).0,
            z_buffer@ == raster_fold(tv0, tv1, tv2, *texture, gvw, gvh, frame0, depth0, i as nat).1,
            buffer@.len() == vplen,
            z_buffer@.len() == vplen,
        decreases total - i,
    {
        let lx: usize = i % bw;
        let ly: usize = i / bw;
        proof {
            lemma_mod_bound(i as int, bw as int);
            vstd::arithmetic::div_mod::lemma_div_pos_is_pos(i as int, bw as int);
            vstd::arithmetic::div_mod::lemma_multiply_divide_lt(i as int, bw as int, bh as int);
        }
        let x: usize = x_min + lx;
        let y: usize = y_min + ly;
        let px: i128 = (x as i128) * SCALE;
        let py: i128 = (y as i128) * SCALE;
        let e0 = crate::utils::edge_function(
            crate::fx::Vec2Fx { x: px, y: py },
            crate::fx::Vec2Fx { x: sx1, y: sy1 },
            crate::fx::Vec2Fx { x: sx2, y: sy2 },
        );
        let e1 = crate::utils::edge_function(
            crate::fx::Vec2Fx { x: px, y: py },
            crate::fx::Vec2Fx { x: sx2, y: sy2 },
            crate::fx::Vec2Fx { x: sx0, y: sy0 },
        );
        let e2 = crate::utils::edge_function(
            crate::fx::Vec2Fx { x: px, y: py },
            crate::fx::Vec2Fx { x: sx0, y: sy0 },
            crate::fx::Vec2Fx { x: sx1, y: sy1 },
        );
        proof {
            assert(e0 == pix_edge(x as int, y as int, tv1, tv2, gvw, gvh));
            assert(e1 == pix_edge(x as int, y as int, tv2, tv0, gvw, gvh));
            assert(e2 == pix_edge(x as int, y as int, tv0, tv1, gvw, gvh));
            crate::utils::lemma_edge_bound(
                px as int,
                py as int,
                sx1 as int,
                sy1 as int,
                sx2 as int,
                sy2 as int,
                SCREEN_LIMIT as int,
            );
            crate::utils::lemma_edge_bound(
                px as int,
                py as int,
                sx2 as int,
                sy2 as int,
                sx0 as int,
                sy0 as int,
                SCREEN_LIMIT as int,
            );
            crate::utils::lemma_edge_bound(
                px as int,
                py as int,
                sx0 as int,
                sy0 as int,
                sx1 as int,
                sy1 as int,
                SCREEN_LIMIT as int,
            );
            lemma_mul_bound(
                e0 as int,
                rec0 as int,
                8 * (SCREEN_LIMIT as int) * (SCREEN_LIMIT as int),
                0x1_0000_0000,
            );
            lemma_mul_bound(
                e1 as int,
                rec1 as int,
                8 * (SCREEN_LIMIT as int) * (SCREEN_LIMIT as int),
                0x1_0000_0000,
            );
            lemma_mul_bound(
                e2 as int,
                rec2 as int,
                8 * (SCREEN_LIMIT as int) * (SCREEN_LIMIT as int),
                0x1_0000_0000,
            );
        }
        let inside: bool = if area > 0 {
            e0 >= 0 && e1 >= 0 && e2 >= 0
        } else {
            e0 <= 0 && e1 <= 0 && e2 <= 0
        };
        proof {
            assert(inside == pix_inside(tv0, tv1, tv2, gvw, gvh, x as int, y as int));
        }
        if inside {
            let denom: i128 = e0 * rec0 + e1 * rec1 + e2 * rec2;
            proof {
                assert(denom == pix_denom(tv0, tv1, tv2, gvw, gvh, x as int, y as int));
            }
            if denom != 0 {
                proof {
                    lemma_mul_bound(
                        area as int,
                        SCALE as int,
                        8 * (SCREEN_LIMIT as int) * (SCREEN_LIMIT as int),
                        SCALE as int,
                    );
                    lemma_mul_bound(
                        (area * SCALE) as int,
                        SCALE as int,
                        8 * (SCREEN_LIMIT as int) * (SCREEN_LIMIT as int) * (SCALE as int),
                        SCALE as int,
                    );
                }
                let dnum: i128 = area * SCALE * SCALE;
                let depth: i128 = divt(dnum, denom);
                proof {
                    assert(depth == pix_depth(tv0, tv1, tv2, gvw, gvh, x as int, y as int));
                    assert(y * vw + x < vw * vh) by (nonlinear_arith)
                        requires
                            0 <= x as int <= vw - 1,
                            0 <= y as int <= vh - 1,
                            1 <= vw,
                            1 <= vh,
                    ;
                }
                let j: usize = y * vw + x;
                let stored: i128 = z_buffer[j];
                match texture {
                    Option::Some(tex) => {
                        let nu: i128 = attr_numer(e0, e1, e2, v0p.uv.x, v1p.uv.x, v2p.uv.x);
                        let nv: i128 = attr_numer(e0, e1, e2, v0p.uv.y, v1p.uv.y, v2p.uv.y);
                        let ucorr: i128 = attr_corr(nu, denom);
                        let vcorr: i128 = attr_corr(nv, denom);
                        proof {
                            assert(ucorr == pix_attr(
                                tv0,
                                tv1,
                                tv2,
                                gvw,
                                gvh,
                                x as int,
                                y as int,
                                pre_uv_x(tv0),
                                pre_uv_x(tv1),
                                pre_uv_x(tv2),
                            ));
                            assert(vcorr == pix_attr(
                                tv0,
                                tv1,
                                tv2,
                                gvw,
                                gvh,
                                x as int,
                                y as int,
                                pre_uv_y(tv0),
                                pre_uv_y(tv1),
                                pre_uv_y(tv2),
                            ));
                        }
                        if -crate::texture::UV_LIMIT <= ucorr && ucorr <= crate::texture::UV_LIMIT
                            && -crate::texture::UV_LIMIT <= vcorr && vcorr
                            <= crate::texture::UV_LIMIT {
                            if depth < stored {
                                let col: u32 = tex.sample(ucorr, vcorr);
                                buffer[j] = col;
                                z_buffer[j] = depth;
                            }
                        }
                    },
                    Option::None => {
                        if depth < stored {
                            let ncr: i128 = attr_numer(
                                e0,
                                e1,
                                e2,
                                v0p.color.x,
                                v1p.color.x,
                                v2p.color.x,
                            );
                            let ncg: i128 = attr_numer(
                                e0,
                                e1,
                                e2,
                                v0p.color.y,
                                v1p.color.y,
                                v2p.color.y,
                            );
                            let ncb: i128 = attr_numer(
                                e0,
                                e1,
                                e2,
                                v0p.color.z,
                                v1p.color.z,
                                v2p.color.z,
                            );
                            let chr: i128 = to_channel(attr_corr(ncr, denom));
                            let chg: i128 = to_channel(attr_corr(ncg, denom));
                            let chb: i128 = to_channel(attr_corr(ncb, denom));
                            let col: u32 = crate::utils::from_u8_rgba(
                                chr as u8,
                                chg as u8,
                                chb as u8,
                                255,
                            );
                            buffer[j] = col;
                            z_buffer[j] = depth;
                        }
                    },
                }
            }
        }
        proof {
            assert(buffer@ == raster_fold(
                tv0,
                tv1,
                tv2,
                *texture,
                gvw,
                gvh,
                frame0,
                depth0,
                (i + 1) as nat,
            ).0);
            assert(z_buffer@ == raster_fold(
                tv0,
                tv1,
                tv2,
                *texture,
                gvw,
                gvh,
                frame0,
                depth0,
                (i + 1) as nat,
            ).1);
        }
        i = i + 1;
    }
}

/// The interpolation numerator of one attribute at a pixel: the three
/// pre-scaled attribute values weighted by the edge values.
fn attr_numer(e0: i128, e1: i128, e2: i128, a0: i128, a1: i128, a2: i128) -> (n: i128)
    requires
        -8 * SCREEN_LIMIT * SCREEN_LIMIT <= e0 <= 8 * SCREEN_LIMIT * SCREEN_LIMIT,
        -8 * SCREEN_LIMIT * SCREEN_LIMIT <= e1 <= 8 * SCREEN_LIMIT * SCREEN_LIMIT,
        -8 * SCREEN_LIMIT * SCREEN_LIMIT <= e2 <= 8 * SCREEN_LIMIT * SCREEN_LIMIT,
        -ATTR_LIMIT <= a0 <= ATTR_LIMIT,
        -ATTR_LIMIT <= a1 <= ATTR_LIMIT,
        -ATTR_LIMIT <= a2 <= ATTR_LIMIT,
    ensures
        n == e0 * a0 + e1 * a1 + e2 * a2,
        -24 * SCREEN_LIMIT * SCREEN_LIMIT * ATTR_LIMIT <= n <= 24 * SCREEN_LIMIT * SCREEN_LIMIT
            * ATTR_LIMIT,
{
    proof {
        lemma_mul_bound(
            e0 as int,
            a0 as int,
            8 * (SCREEN_LIMIT as int) * (SCREEN_LIMIT as int),
            ATTR_LIMIT as int,
        );
        lemma_mul_bound(
            e1 as int,
            a1 as int,
            8 * (SCREEN_LIMIT as int) * (SCREEN_LIMIT as int),
            ATTR_LIMIT as int,
        );
        lemma_mul_bound(
            e2 as int,
            a2 as int,
            8 * (SCREEN_LIMIT as int) * (SCREEN_LIMIT as int),
            ATTR_LIMIT as int,
        );
        assert(8 * (SCREEN_LIMIT as int) * (SCREEN_LIMIT as int) * (ATTR_LIMIT as int) * 3 == 24
            * (SCREEN_LIMIT as int) * (SCREEN_LIMIT as int) * (ATTR_LIMIT as int))
            by (nonlinear_arith);
    }
    e0 * a0 + e1 * a1 + e2 * a2
}

/// One perspective-corrected attribute: the numerator rescaled and
/// divided by the correction denominator.
fn attr_corr(n: i128, denom: i128) -> (r: i128)
    requires
        denom != 0,
        denom != i128::MIN,
        -24 * SCREEN_LIMIT * SCREEN_LIMIT * ATTR_LIMIT <= n <= 24 * SCREEN_LIMIT * SCREEN_LIMIT
            * ATTR_LIMIT,
    ensures
        r == quot(n * (SCALE as int), denom as int),
{
    proof {
        lemma_mul_bound(
            n as int,
            SCALE as int,
            24 * (SCREEN_LIMIT as int) * (SCREEN_LIMIT as int) * (ATTR_LIMIT as int),
            SCALE as int,
        );
    }
    let ns: i128 = n * SCALE;
    divt(ns, denom)
}

/// The near-plane intersection vertex as a value: every component the
/// affine blend of the two endpoints.
pub open spec fn blend_vertex(a: Vertex, b: Vertex, alpha: int) -> Vertex {
    Vertex {
        pos: crate::fx::Vec4Fx {
            x: blend(a.pos.x as int, b.pos.x as int, alpha) as i128,
            y: blend(a.pos.y as int, b.pos.y as int, alpha) as i128,
            z: blend(a.pos.z as int, b.pos.z as int, alpha) as i128,
            w: blend(a.pos.w as int, b.pos.w as int, alpha) as i128,
        },
        normal: crate::fx::Vec3Fx {
            x: blend(a.normal.x as int, b.normal.x as int, alpha) as i128,
            y: blend(a.normal.y as int, b.normal.y as int, alpha) as i128,
            z: blend(a.normal.z as int, b.normal.z as int, alpha) as i128,
        },
        color: crate::fx::Vec3Fx {
            x: blend(a.color.x as int, b.color.x as int, alpha) as i128,
            y: blend(a.color.y as int, b.color.y as int, alpha) as i128,
            z: blend(a.color.z as int, b.color.z as int, alpha) as i128,
        },
        uv: crate::fx::Vec2Fx {
            x: blend(a.uv.x as int, b.uv.x as int, alpha) as i128,
            y: blend(a.uv.y as int, b.uv.y as int, alpha) as i128,
        },
    }
}

/// A vertex that blends two bounded vertices componentwise is exactly
/// the blend-vertex value.
pub proof fn lemma_blend_vertex(r: Vertex, a: Vertex, b: Vertex, alpha: int)
    requires
        vertex_is_blend(r, a, b, alpha),
        vertex_in_limit(a, POS_LIMIT as int),
        vertex_in_limit(b, POS_LIMIT as int),
        0 <= alpha <= SCALE,
    ensures
        r == blend_vertex(a, b, alpha),
{
    let lim = POS_LIMIT as int;
    lemma_blend_in_limit(a.pos.x as int, b.pos.x as int, alpha, lim);
    lemma_blend_in_limit(a.pos.y as int, b.pos.y as int, alpha, lim);
    lemma_blend_in_limit(a.pos.z as int, b.pos.z as int, alpha, lim);
    lemma_blend_in_limit(a.pos.w as int, b.pos.w as int, alpha, lim);
    lemma_blend_in_limit(a.normal.x as int, b.normal.x as int, alpha, lim);
    lemma_blend_in_limit(a.normal.y as int, b.normal.y as int, alpha, lim);
    lemma_blend_in_limit(a.normal.z as int, b.normal.z as int, alpha, lim);
    lemma_blend_in_limit(a.color.x as int, b.color.x as int, alpha, lim);
    lemma_blend_in_limit(a.color.y as int, b.color.y as int, alpha, lim);
    lemma_blend_in_limit(a.color.z as int, b.color.z as int, alpha, lim);
    lemma_blend_in_limit(a.uv.x as int, b.uv.x as int, alpha, lim);
    lemma_blend_in_limit(a.uv.y as int, b.uv.y as int, alpha, lim);
}

/// The whole pipeline for one triangle: transform by the matrix, drop
/// it if the transform leaves the representable range, clip against
/// the near plane, and rasterize each emitted piece in order.
pub open spec fn clip_raster_model(
    t0: Vertex,
    t1: Vertex,
    t2: Vertex,
    m: crate::geometry::Mat4Fx,
    tex: Option<Texture>,
    vw: int,
    vh: int,
    frame: Seq<u32>,
    depth: Seq<i128>,
) -> (Seq<u32>, Seq<i128>) {
    let p0 = crate::geometry::xformed_vertex(m, t0);
    let p1 = crate::geometry::xformed_vertex(m, t1);
    let p2 = crate::geometry::xformed_vertex(m, t2);
    if !(vertex_in_limit(p0, POS_LIMIT as int) && vertex_in_limit(p1, POS_LIMIT as int)
        && vertex_in_limit(p2, POS_LIMIT as int)) {
        (frame, depth)
    } else {
        let inv = invalid_count3(p0, p1, p2);
        let ro = reordered3(p0, p1, p2);
        if inv == 3 {
            (frame, depth)
        } else if inv == 2 {
            raster_model(
                ro.0,
                blend_vertex(ro.0, ro.1, clip_alpha(ro.0.pos.z as int, ro.1.pos.z as int)),
                blend_vertex(ro.0, ro.2, clip_alpha(ro.0.pos.z as int, ro.2.pos.z as int)),
                tex,
                vw,
                vh,
                frame,
                depth,
            )
        } else if inv == 1 {
            let pr0 = blend_vertex(ro.0, ro.2, clip_alpha(ro.0.pos.z as int, ro.2.pos.z as int));
            let pr1 = blend_vertex(ro.1, ro.2, clip_alpha(ro.1.pos.z as int, ro.2.pos.z as int));
            let mid = raster_model(ro.0, ro.1, pr0, tex, vw, vh, frame, depth);
            raster_model(pr0, ro.1, pr1, tex, vw, vh, mid.0, mid.1)
        } else {
            raster_model(p0, p1, p2, tex, vw, vh, frame, depth)
        }
    }
}

/// Transforms one triangle by the model-view-projection matrix, clips
/// it against the near plane, and rasterizes whatever survives, piece
/// by piece. A triangle whose transform leaves the representable range
/// is dropped whole, as a numerical degeneracy.
pub fn clip_and_rasterize_triangle(
    triangle_original: [Vertex; 3],
    mvp: crate::geometry::Mat4Fx,
    texture: &Option<Texture>,
    buffer: &mut Vec<u32>,
    z_buffer: &mut Vec<i128>,
    viewport: (usize, usize),
)
    requires
        vertex_in_limit(triangle_original@[0], POS_LIMIT as int),
        vertex_in_limit(triangle_original@[1], POS_LIMIT as int),
        vertex_in_limit(triangle_original@[2], POS_LIMIT as int),
        crate::geometry::mat_in_limit(mvp, POS_LIMIT as int),
        1 <= viewport.0 <= VIEWPORT_LIMIT,
        1 <= viewport.1 <= VIEWPORT_LIMIT,
        old(buffer)@.len() == viewport.0 * viewport.1,
        old(z_buffer)@.len() == viewport.0 * viewport.1,
        crate::texture::texture_opt_wf(*texture),
    ensures
        final(buffer)@ == clip_raster_model(
            triangle_original@[0],
            triangle_original@[1],
            triangle_original@[2],
            mvp,
            *texture,
            viewport.0 as int,
            viewport.1 as int,
            old(buffer)@,
            old(z_buffer)@,
        ).0,
        final(z_buffer)@ == clip_raster_model(
            triangle_original@[0],
            triangle_original@[1],
            triangle_original@[2],
            mvp,
            *texture,
            viewport.0 as int,
            viewport.1 as int,
            old(buffer)@,
            old(z_buffer)@,
        ).1,
        final(buffer)@.len() == old(buffer)@.len(),
        final(z_buffer)@.len() == old(z_buffer)@.len(),
{
    let p0 = crate::geometry::transform_vertex(&mvp, &triangle_original[0]);
    let p1 = crate::geometry::transform_vertex(&mvp, &triangle_original[1]);
    let p2 = crate::geometry::transform_vertex(&mvp, &triangle_original[2]);
    if p0.pos.x > POS_LIMIT || p0.pos.x < -POS_LIMIT || p0.pos.y > POS_LIMIT || p0.pos.y
        < -POS_LIMIT || p0.pos.z > POS_LIMIT || p0.pos.z < -POS_LIMIT || p0.pos.w > POS_LIMIT
        || p0.pos.w < -POS_LIMIT || p1.pos.x > POS_LIMIT || p1.pos.x < -POS_LIMIT || p1.pos.y
        > POS_LIMIT || p1.pos.y < -POS_LIMIT || p1.pos.z > POS_LIMIT || p1.pos.z < -POS_LIMIT
        || p1.pos.w > POS_LIMIT || p1.pos.w < -POS_LIMIT || p2.pos.x > POS_LIMIT || p2.pos.x
        < -POS_LIMIT || p2.pos.y > POS_LIMIT || p2.pos.y < -POS_LIMIT || p2.pos.z > POS_LIMIT
        || p2.pos.z < -POS_LIMIT || p2.pos.w > POS_LIMIT || p2.pos.w < -POS_LIMIT {
        return ;
    }
    let tp: [Vertex; 3] = [p0, p1, p2];
    proof {
        assert(vertex_in_limit(tp@[0], POS_LIMIT as int));
        assert(vertex_in_limit(tp@[1], POS_LIMIT as int));
        assert(vertex_in_limit(tp@[2], POS_LIMIT as int));
        if invalid_count(tp) == 2 {
            lemma_clip_alpha_unit(reordered(tp).0.pos.z as int, reordered(tp).1.pos.z as int);
            lemma_clip_alpha_unit(reordered(tp).0.pos.z as int, reordered(tp).2.pos.z as int);
        }
        if invalid_count(tp) == 1 {
            lemma_clip_alpha_unit(reordered(tp).0.pos.z as int, reordered(tp).2.pos.z as int);
            lemma_clip_alpha_unit(reordered(tp).1.pos.z as int, reordered(tp).2.pos.z as int);
        }
    }
    let pieces = clip_triangle(&tp);
    if pieces.len() == 0 {
        return ;
    }
    let ghost inv = invalid_count(tp);
    let ghost ro = reordered(tp);
    proof {
        if inv == 2 {
            lemma_blend_vertex(
                pieces@[0]@[1],
                ro.0,
                ro.1,
                clip_alpha(ro.0.pos.z as int, ro.1.pos.z as int),
            );
            lemma_blend_vertex(
                pieces@[0]@[2],
                ro.0,
                ro.2,
                clip_alpha(ro.0.pos.z as int, ro.2.pos.z as int),
            );
        }
        if inv == 1 {
            lemma_blend_vertex(
                pieces@[0]@[2],
                ro.0,
                ro.2,
                clip_alpha(ro.0.pos.z as int, ro.2.pos.z as int),
            );
            lemma_blend_vertex(
                pieces@[1]@[2],
                ro.1,
                ro.2,
                clip_alpha(ro.1.pos.z as int, ro.2.pos.z as int),
            );
        }
    }
    let piece0: [Vertex; 3] = pieces[0];
    rasterize_triangle(&piece0, texture, buffer, z_buffer, viewport);
    if pieces.len() >= 2 {
        let piece1: [Vertex; 3] = pieces[1];
        rasterize_triangle(&piece1, texture, buffer, z_buffer, viewport);
    }
}

/// An 8-bit channel value from a fixed-point color component:
/// saturated into one unit, then truncated to 0..=255.
fn to_channel(c: i128) -> (ch: i128)
    ensures
        ch == channel_spec(c as int),
        0 <= ch <= 255,
{
    let cl: i128 = crate::fx::clamp_i(c, 0, SCALE);
    proof {
        lemma_quot_le(cl as int * 255, SCALE as int, 255);
    }
    divt(cl * 255, SCALE)
}

} // verus!
