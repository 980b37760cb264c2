//! Textures: a row-major array of packed 32-bit colors, sampled by
//! normalized coordinates with wraparound on both axes.

use vstd::prelude::*;
use crate::fx::SCALE;
use crate::utils::color_pack;
use crate::utils::from_u8_rgba;
use vstd::arithmetic::div_mod::lemma_mod_bound;
use vstd::arithmetic::div_mod::lemma_div_is_ordered;

verus! {

/// Magnitude limit on the fixed-point texture coordinates `sample`
/// accepts.
pub const UV_LIMIT: i128 = 0x100_0000_0000;

/// A row-major image of packed 32-bit colors, origin at the top left.
pub struct Texture {
    pub width: usize,
    pub height: usize,
    pub data: Vec<u32>,
}

/// An optional texture is well formed when, if present, it is.
pub open spec fn texture_opt_wf(t: Option<Texture>) -> bool {
    match t {
        Option::Some(tx) => texture_wf(tx),
        Option::None => true,
    }
}

/// The pixel array has exactly one packed color per texel.
pub open spec fn texture_wf(t: Texture) -> bool {
    &&& 1 <= t.width
    &&& 1 <= t.height
    &&& t.data@.len() == t.width * t.height
}

/// The texel index selected along one axis of `n` texels by the
/// fixed-point coordinate `q`: `floor(q * n)` wrapped modulo `n`.
pub open spec fn texel_coord(q: int, n: int) -> int {
    ((q * n) / (SCALE as int)) % n
}

impl Texture {
    /// Builds a texture from rows of 8-bit red, green, blue triples,
    /// packing each triple as a fully opaque color.
    pub fn from_rgb8(width: usize, height: usize, bytes: &Vec<u8>) -> (t: Texture)
        requires
            1 <= width,
            1 <= height,
            bytes@.len() == width * height * 3,
        ensures
            texture_wf(t),
            t.width == width,
            t.height == height,
            forall|i: int|
                0 <= i < width * height ==> t.data@[i] == color_pack(
                    255,
                    bytes@[3 * i] as int,
                    bytes@[3 * i + 1] as int,
                    bytes@[3 * i + 2] as int,
                ),
    {
        let total: usize = bytes.len() / 3;
        proof {
            assert(total == width * height) by {
                assert(bytes@.len() == (width * height) * 3);
                assert(((width * height) * 3) / 3 == width * height) by (nonlinear_arith);
            }
        }
        let mut data: Vec<u32> = Vec::new();
        let mut i: usize = 0;
        while i < total
            invariant
                0 <= i <= total,
                total == width * height,
                bytes@.len() == width * height * 3,
                data@.len() == i,
                forall|k: int|
                    0 <= k < i ==> data@[k] == color_pack(
                        255,
                        bytes@[3 * k] as int,
                        bytes@[3 * k + 1] as int,
                        bytes@[3 * k + 2] as int,
                    ),
            decreases total - i,
        {
            let blen: usize = bytes.len();
            proof {
                assert(3 * i + 2 < bytes@.len()) by (nonlinear_arith)
                    requires
                        i < total,
                        total == width * height,
                        bytes@.len() == width * height * 3,
                ;
                assert(blen == bytes@.len());
            }
            let c = from_u8_rgba(bytes[3 * i], bytes[3 * i + 1], bytes[3 * i + 2], 255);
            data.push(c);
            i = i + 1;
        }
        Texture { width, height, data }
    }

    /// Samples the texture at the fixed-point coordinates `(u, v)`,
    /// wrapping around on both axes.
    pub fn sample(&self, u: i128, v: i128) -> (c: u32)
        requires
            texture_wf(*self),
            -UV_LIMIT <= u <= UV_LIMIT,
            -UV_LIMIT <= v <= UV_LIMIT,
        ensures
            c == self.data@[texel_coord(v as int, self.height as int) * self.width + texel_coord(
                u as int,
                self.width as int,
            )],
    {
        let w: i128 = self.width as i128;
        let h: i128 = self.height as i128;
        let dlen: usize = self.data.len();
        let tx: i128 = texel_index(u, w);
        let ty: i128 = texel_index(v, h);
        proof {
            assert(ty * w + tx < h * w) by (nonlinear_arith)
                requires
                    0 <= tx < w,
                    0 <= ty < h,
            ;
            assert(self.width * self.height == self.height * self.width) by (nonlinear_arith);
            assert(dlen == self.data@.len());
        }
        let index: usize = (ty as usize) * self.width + (tx as usize);
        self.data[index]
    }
}

/// The texel index along one axis: `floor` of the coordinate times the
/// texel count, wrapped modulo the count.
fn texel_index(q: i128, n: i128) -> (r: i128)
    requires
        -UV_LIMIT <= q <= UV_LIMIT,
        1 <= n <= usize::MAX,
    ensures
        r == texel_coord(q as int, n as int),
        0 <= r < n,
{
    proof {
        crate::fx::lemma_mul_bound(q as int, n as int, UV_LIMIT as int, usize::MAX as int);
    }
    let scaled: i128 = q.checked_mul(n).unwrap();
    proof {
        let lim: int = UV_LIMIT as int * usize::MAX as int;
        lemma_div_is_ordered(-lim, scaled as int, SCALE as int);
        lemma_div_is_ordered(scaled as int, lim, SCALE as int);
        assert(-lim / (SCALE as int) >= i128::MIN);
        assert(lim / (SCALE as int) <= i128::MAX);
    }
    let fl: i128 = scaled.checked_div_euclid(SCALE).unwrap();
    proof {
        lemma_mod_bound(fl as int, n as int);
    }
    fl.checked_rem_euclid(n).unwrap()
}

} // verus!
