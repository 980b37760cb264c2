//! Laws of the rasterizer core, stated over the same spec functions
//! its contracts use.

use vstd::prelude::*;
use crate::utils::edge_spec;
use crate::apply_fragment;
use crate::pix_edge;
use crate::tri_area;
use crate::geometry::Vertex;

verus! {

/// Coverage partition: for any point, the three edge weights taken
/// against the sides of a triangle sum exactly to the triangle's own
/// signed area — so the normalized barycentric weights sum to one, and
/// the point is covered exactly when all three weights are
/// nonnegative, which is the sign test the rasterizer applies.
#[verifier::rlimit(100)]
pub proof fn lemma_weights_partition(
    px: int,
    py: int,
    x0: int,
    y0: int,
    x1: int,
    y1: int,
    x2: int,
    y2: int,
)
    ensures
        edge_spec(px, py, x1, y1, x2, y2) + edge_spec(px, py, x2, y2, x0, y0) + edge_spec(
            px,
            py,
            x0,
            y0,
            x1,
            y1,
        ) == edge_spec(x0, y0, x1, y1, x2, y2),
{
    assert(edge_spec(px, py, x1, y1, x2, y2) + edge_spec(px, py, x2, y2, x0, y0) + edge_spec(
        px,
        py,
        x0,
        y0,
        x1,
        y1,
    ) == edge_spec(x0, y0, x1, y1, x2, y2)) by (nonlinear_arith);
}

/// The coverage partition at a rasterized pixel: the three per-pixel
/// edge weights sum exactly to the screen triangle's area.
pub proof fn lemma_pixel_weights_partition(
    v0: Vertex,
    v1: Vertex,
    v2: Vertex,
    vw: int,
    vh: int,
    x: int,
    y: int,
)
    ensures
        pix_edge(x, y, v1, v2, vw, vh) + pix_edge(x, y, v2, v0, vw, vh) + pix_edge(
            x,
            y,
            v0,
            v1,
            vw,
            vh,
        ) == tri_area(v0, v1, v2, vw, vh),
{
    lemma_weights_partition(
        x * crate::fx::SCALE as int,
        y * crate::fx::SCALE as int,
        crate::screen_x(v0, vw),
        crate::screen_y(v0, vh),
        crate::screen_x(v1, vw),
        crate::screen_y(v1, vh),
        crate::screen_x(v2, vw),
        crate::screen_y(v2, vh),
    );
}

/// Two fragments applied in order at one pixel.
pub open spec fn apply_two(
    frame: Seq<u32>,
    depth: Seq<i128>,
    j: int,
    da: int,
    ca: int,
    db: int,
    cb: int,
) -> (Seq<u32>, Seq<i128>) {
    let mid = apply_fragment(frame, depth, j, da, ca);
    apply_fragment(mid.0, mid.1, j, db, cb)
}

/// Depth monotonicity: when fragment `b` is strictly closer than
/// fragment `a` and closer than what the depth buffer holds, `b`'s
/// color and depth are what remain at the pixel — whichever order the
/// two fragments arrive in.
pub proof fn lemma_depth_monotonic(
    frame: Seq<u32>,
    depth: Seq<i128>,
    j: int,
    da: int,
    ca: int,
    db: int,
    cb: int,
)
    requires
        0 <= j < depth.len(),
        frame.len() == depth.len(),
        db < da,
        db < depth[j],
        i128::MIN <= da <= i128::MAX,
        i128::MIN <= db <= i128::MAX,
    ensures
        apply_two(frame, depth, j, da, ca, db, cb).0[j] == cb as u32,
        apply_two(frame, depth, j, da, ca, db, cb).1[j] == db as i128,
        apply_two(frame, depth, j, db, cb, da, ca).0[j] == cb as u32,
        apply_two(frame, depth, j, db, cb, da, ca).1[j] == db as i128,
{
}

/// Depth tie-break: at equal depth the strict-less-than test rejects
/// the later fragment, so the first one's color and depth stand.
pub proof fn lemma_depth_tie_break(
    frame: Seq<u32>,
    depth: Seq<i128>,
    j: int,
    d: int,
    ca: int,
    cb: int,
)
    requires
        0 <= j < depth.len(),
        frame.len() == depth.len(),
        d < depth[j],
        i128::MIN <= d <= i128::MAX,
    ensures
        apply_two(frame, depth, j, d, ca, d, cb).0[j] == ca as u32,
        apply_two(frame, depth, j, d, ca, d, cb).1[j] == d as i128,
{
}

} // verus!
