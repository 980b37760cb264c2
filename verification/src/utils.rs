//! Packed-color construction, range remapping and the 2D edge function.

use vstd::prelude::*;
use crate::fx::quot;
use crate::fx::divt;
use crate::fx::lemma_mul_bound;
use crate::fx::Vec2Fx;

verus! {

/// Magnitude limit on the coordinates accepted by `edge_function`.
pub const EDGE_LIMIT: i128 = 0x10_0000_0000;

/// A packed 32-bit color: 8 bits each of alpha, red, green, blue, from
/// the highest byte down.
pub open spec fn color_pack(alpha: int, red: int, green: int, blue: int) -> int {
    alpha * 0x100_0000 + red * 0x1_0000 + green * 0x100 + blue
}

/// Packs four 8-bit channels into one 32-bit color, alpha highest.
pub fn from_u8_rgba(red: u8, green: u8, blue: u8, alpha: u8) -> (c: u32)
    ensures
        c == color_pack(alpha as int, red as int, green as int, blue as int),
{
    (alpha as u32) * 0x100_0000 + (red as u32) * 0x1_0000 + (green as u32) * 0x100 + (blue as u32)
}

/// Linear remapping of `v` from the interval `[a1, a2]` to `[b1, b2]`.
pub open spec fn map_to_range_spec(v: int, a1: int, a2: int, b1: int, b2: int) -> int {
    b1 + quot((v - a1) * (b2 - b1), a2 - a1)
}

/// Remaps `v` linearly so that `a1` lands on `b1` and `a2` on `b2`.
pub fn map_to_range(v: i128, a1: i128, a2: i128, b1: i128, b2: i128) -> (r: i128)
    requires
        a1 != a2,
        -i128::MAX <= a2 - a1 <= i128::MAX,
        -i128::MAX <= v - a1 <= i128::MAX,
        -i128::MAX <= b2 - b1 <= i128::MAX,
        -i128::MAX <= (v - a1) * (b2 - b1) <= i128::MAX,
        i128::MIN <= map_to_range_spec(v as int, a1 as int, a2 as int, b1 as int, b2 as int)
            <= i128::MAX,
    ensures
        r == map_to_range_spec(v as int, a1 as int, a2 as int, b1 as int, b2 as int),
{
    let dv: i128 = v - a1;
    let db: i128 = b2 - b1;
    let da: i128 = a2 - a1;
    let num: i128 = dv.checked_mul(db).unwrap();
    let q: i128 = divt(num, da);
    b1 + q
}

/// The signed-area form `(p - v0) x (v1 - v0)` of the 2D edge function.
pub open spec fn edge_spec(px: int, py: int, ax: int, ay: int, bx: int, by: int) -> int {
    (px - ax) * (by - ay) - (py - ay) * (bx - ax)
}

/// The edge function of six coordinates within a magnitude limit is
/// within eight times the squared limit.
pub proof fn lemma_edge_bound(
    px: int,
    py: int,
    ax: int,
    ay: int,
    bx: int,
    by: int,
    lim: int,
)
    requires
        -lim <= px <= lim,
        -lim <= py <= lim,
        -lim <= ax <= lim,
        -lim <= ay <= lim,
        -lim <= bx <= lim,
        -lim <= by <= lim,
        0 <= lim,
    ensures
        -8 * lim * lim <= edge_spec(px, py, ax, ay, bx, by) <= 8 * lim * lim,
{
    lemma_mul_bound(px - ax, by - ay, 2 * lim, 2 * lim);
    lemma_mul_bound(py - ay, bx - ax, 2 * lim, 2 * lim);
    assert((2 * lim) * (2 * lim) == 4 * (lim * lim)) by (nonlinear_arith);
    assert(8 * lim * lim == 2 * (4 * (lim * lim))) by (nonlinear_arith);
    assert(-8 * lim * lim == -(8 * lim * lim)) by (nonlinear_arith);
}

/// Twice the signed area spanned by `p` against the directed edge
/// `v0 -> v1`; nonnegative for all three edges of a triangle exactly
/// when `p` lies inside it (for one winding).
pub fn edge_function(p: Vec2Fx, v0: Vec2Fx, v1: Vec2Fx) -> (e: i128)
    requires
        -EDGE_LIMIT <= p.x <= EDGE_LIMIT,
        -EDGE_LIMIT <= p.y <= EDGE_LIMIT,
        -EDGE_LIMIT <= v0.x <= EDGE_LIMIT,
        -EDGE_LIMIT <= v0.y <= EDGE_LIMIT,
        -EDGE_LIMIT <= v1.x <= EDGE_LIMIT,
        -EDGE_LIMIT <= v1.y <= EDGE_LIMIT,
    ensures
        e == edge_spec(p.x as int, p.y as int, v0.x as int, v0.y as int, v1.x as int, v1.y as int),
        -8 * EDGE_LIMIT * EDGE_LIMIT <= e <= 8 * EDGE_LIMIT * EDGE_LIMIT,
{
    let seg_bx: i128 = v1.x - v0.x;
    let seg_by: i128 = v1.y - v0.y;
    let seg_ax: i128 = p.x - v0.x;
    let seg_ay: i128 = p.y - v0.y;
    proof {
        lemma_mul_bound(seg_ax as int, seg_by as int, 2 * EDGE_LIMIT, 2 * EDGE_LIMIT);
        lemma_mul_bound(seg_ay as int, seg_bx as int, 2 * EDGE_LIMIT, 2 * EDGE_LIMIT);
    }
    seg_ax * seg_by - seg_ay * seg_bx
}

} // verus!
