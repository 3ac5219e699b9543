//! Raw texture pixels with nearest and bilinear sampling.
//!
//! Coordinates are fixed-point UV values; a coordinate is scaled by the
//! texture dimension, truncated, and wrapped modulo `width - 1` /
//! `height - 1`. The wrap never reaches the last row or column by direct
//! index; that is the intentional (if unusual) wrap policy of this
//! pipeline, kept as is. Channel values come back as fixed-point numbers
//! in roughly `[0, 1]` (a byte `b` maps to `b / 255.99`); the alpha of a
//! three-channel texture is exactly one.

use vstd::prelude::*;

verus! {

use vstd::arithmetic::mul::lemma_mul_upper_bound;
use crate::fixed::{
    FX_ONE, fx_mul, fx_mul_s, fx_sub, fx_sub_s, fx_add_s, fx_div, fx_div_s, fx_trunc, fx_trunc_s,
    fx_to_u32, u32_sat_s, i32_sat_s, fx_to_i32, fx_add,
};

pub struct Texture {
    pub data: Vec<u8>,
    pub width: u32,
    pub height: u32,
    pub channels: usize,
}

/// Fixed-point value of one texture byte: `b / 255.99`.
pub open spec fn byte_fx_s(b: int) -> int {
    (b * 6553600) / 25599
}

/// A UV coordinate scaled by `dim`, truncated, and wrapped modulo
/// `dim - 1`.
pub open spec fn wrap_s(c: int, dim: int) -> int {
    u32_sat_s(fx_trunc_s(fx_mul_s(c, dim * (FX_ONE as int)))) % (dim - 1)
}

/// Linear blend `a + (b - a) * d` in fixed point.
pub open spec fn blend_s(a: int, b: int, d: int) -> int {
    fx_add_s(a, fx_mul_s(fx_sub_s(b, a), d))
}

/// Fractional part of a UV coordinate scaled by `dim`: the distance from
/// the scaled coordinate to its (saturated) integer part.
pub open spec fn frac_s(c: int, dim: int) -> int {
    let s = fx_mul_s(c, dim * (FX_ONE as int));
    fx_sub_s(s, i32_sat_s(fx_trunc_s(s)) * (FX_ONE as int))
}

impl Texture {
    /// The pixel bytes fill the grid exactly, with a supported channel
    /// count.
    pub open spec fn wf(self) -> bool {
        &&& (self.channels == 3 || self.channels == 4)
        &&& self.data@.len() == self.width as int * self.height as int * self.channels as int
    }

    /// Both dimensions large enough for the wrap policy's modulus.
    pub open spec fn sampleable(self) -> bool {
        self.wf() && self.width >= 2 && self.height >= 2
    }

    /// Channel `k` of the texel that `(x, y)` wraps to; the alpha channel
    /// of a three-channel texture is one.
    pub open spec fn texel_s(self, x: int, y: int, k: int) -> int {
        let xw = wrap_s(x, self.width as int);
        let yw = wrap_s(y, self.height as int);
        let base = (xw + yw * self.width as int) * self.channels as int;
        if k < self.channels as int {
            byte_fx_s(self.data@[base + k] as int)
        } else {
            FX_ONE as int
        }
    }

    /// Channel `k` of the bilinear sample at `(x, y)`: four taps one texel
    /// apart in each diagonal direction, blended along x and then y.
    pub open spec fn sample_s(self, x: int, y: int, k: int) -> int {
        let invx = fx_div_s(FX_ONE as int, self.width as int * (FX_ONE as int));
        let invy = fx_div_s(FX_ONE as int, self.height as int * (FX_ONE as int));
        let tl = self.texel_s(fx_sub_s(x, invx), fx_sub_s(y, invy), k);
        let tr = self.texel_s(fx_add_s(x, invx), fx_sub_s(y, invy), k);
        let bl = self.texel_s(fx_sub_s(x, invx), fx_add_s(y, invy), k);
        let br = self.texel_s(fx_add_s(x, invx), fx_add_s(y, invy), k);
        let dx = frac_s(x, self.width as int);
        let dy = frac_s(y, self.height as int);
        blend_s(blend_s(bl, br, dx), blend_s(tl, tr, dx), dy)
    }

    /// Build a texture after validating what the rasterizer relies on:
    /// a supported channel count and a byte buffer that fills the grid.
    pub fn new(data: Vec<u8>, width: u32, height: u32, channels: usize) -> (t: Option<Texture>)
        ensures
            t is Some <==> (channels == 3 || channels == 4) && data@.len() == width as int
                * height as int * channels as int,
            t is Some ==> t->0 == (Texture { data, width, height, channels }),
            t is Some ==> t->0.wf(),
    {
        if !(channels == 3 || channels == 4) {
            return None;
        }
        proof {
            lemma_mul_upper_bound(width as int, u32::MAX as int, height as int, u32::MAX as int);
            lemma_mul_upper_bound(
                width as int * height as int,
                u32::MAX as int * u32::MAX as int,
                channels as int,
                4,
            );
        }
        let total: u128 = (width as u128) * (height as u128) * (channels as u128);
        let len: usize = data.len();
        if len as u128 == total {
            Some(Texture { data, width, height, channels })
        } else {
            None
        }
    }

    /// Wrap one coordinate; shared step of both samplers.
    fn wrap_coord(c: i64, dim: u32) -> (w: u32)
        requires
            dim >= 2,
        ensures
            w as int == wrap_s(c as int, dim as int),
            w < dim - 1,
    {
        let dfx: i64 = (dim as i64) * 65536;
        let scaled: i64 = fx_mul(c, dfx);
        let t: u32 = fx_to_u32(scaled);
        t % (dim - 1)
    }

    /// Nearest-texel read at `(x, y)`, as fixed-point RGBA.
    pub fn get_pixel(&self, x: i64, y: i64) -> (px: [i64; 4])
        requires
            self.sampleable(),
        ensures
            forall|k: int| 0 <= k < 4 ==> px[k] as int == self.texel_s(x as int, y as int, k),
    {
        let xw: u32 = Self::wrap_coord(x, self.width);
        let yw: u32 = Self::wrap_coord(y, self.height);
        let n: usize = self.data.len();
        proof {
            assert((yw as int) * (self.width as int) >= 0 && xw as int + (yw as int) * (self.width as int)
                <= (xw as int + yw as int * self.width as int) * self.channels as int && (xw as int + yw as int
                * self.width as int) * self.channels as int + 4 <= self.width as int
                * self.height as int * self.channels as int) by (nonlinear_arith)
                requires
                    xw as int <= self.width as int - 2,
                    yw as int <= self.height as int - 2,
                    self.width >= 2,
                    self.height >= 2,
                    self.channels == 3 || self.channels == 4,
            ;
            assert(self.width as int * self.height as int * self.channels as int == n as int);
        }
        let base: usize = (xw as usize + (yw as usize) * (self.width as usize)) * self.channels;
        let r: i64 = byte_fx(self.data[base]);
        let g: i64 = byte_fx(self.data[base + 1]);
        let b: i64 = byte_fx(self.data[base + 2]);
        let a: i64 = if self.channels == 4 {
            byte_fx(self.data[base + 3])
        } else {
            65536
        };
        [r, g, b, a]
    }

    /// Bilinear sample at `(x, y)`, as fixed-point RGBA.
    pub fn sample_pixel(&self, x: i64, y: i64) -> (px: [i64; 4])
        requires
            self.sampleable(),
        ensures
            forall|k: int| 0 <= k < 4 ==> px[k] as int == self.sample_s(x as int, y as int, k),
    {
        let wfx: i64 = (self.width as i64) * 65536;
        let hfx: i64 = (self.height as i64) * 65536;
        let invx: i64 = fx_div(65536, wfx);
        let invy: i64 = fx_div(65536, hfx);

        let tl: [i64; 4] = self.get_pixel(fx_sub(x, invx), fx_sub(y, invy));
        let tr: [i64; 4] = self.get_pixel(fx_add(x, invx), fx_sub(y, invy));
        let bl: [i64; 4] = self.get_pixel(fx_sub(x, invx), fx_add(y, invy));
        let br: [i64; 4] = self.get_pixel(fx_add(x, invx), fx_add(y, invy));

        let dx: i64 = frac(x, self.width);
        let dy: i64 = frac(y, self.height);

        let o0: i64 = blend(blend(bl[0], br[0], dx), blend(tl[0], tr[0], dx), dy);
        let o1: i64 = blend(blend(bl[1], br[1], dx), blend(tl[1], tr[1], dx), dy);
        let o2: i64 = blend(blend(bl[2], br[2], dx), blend(tl[2], tr[2], dx), dy);
        let o3: i64 = blend(blend(bl[3], br[3], dx), blend(tl[3], tr[3], dx), dy);
        [o0, o1, o2, o3]
    }
}

/// Fixed-point value of one texture byte.
fn byte_fx(b: u8) -> (r: i64)
    ensures
        r as int == byte_fx_s(b as int),
        0 <= r <= FX_ONE,
{
    let v: u64 = ((b as u64) * 6553600) / 25599;
    v as i64
}

/// Linear blend `a + (b - a) * d` in fixed point.
fn blend(a: i64, b: i64, d: i64) -> (r: i64)
    ensures
        r as int == blend_s(a as int, b as int, d as int),
{
    fx_add(a, fx_mul(fx_sub(b, a), d))
}

/// Fractional part of a UV coordinate scaled by `dim`.
fn frac(c: i64, dim: u32) -> (r: i64)
    ensures
        r as int == frac_s(c as int, dim as int),
{
    let dfx: i64 = (dim as i64) * 65536;
    let s: i64 = fx_mul(c, dfx);
    let t: i32 = fx_to_i32(s);
    fx_sub(s, (t as i64) * 65536)
}

} // verus!
