//! The projection pipeline and the triangle rasterizer.
//!
//! A point runs through the combined model-view-projection matrix into
//! normalized device coordinates plus the reciprocal of the absolute
//! perspective divisor; clip space maps to pixels by the standard
//! `(ndc * 0.5 + 0.5) * size` transform. The rasterizer walks the
//! triangle's clamped screen bounding box, tests coverage with three
//! signed edge functions, depth-tests against a persistent buffer
//! (strictly closer wins, ties keep the old pixel), interpolates normals
//! and texture coordinates perspective-correctly, shades with one
//! directional light over an ambient floor, and writes the packed color.
//! Every written pixel is pinned exactly by the spec mirror `shade_s`.

use vstd::prelude::*;

verus! {

use crate::fixed::{
    FX_ONE, FX_MAX, tdiv, fx_add, fx_add_s, fx_sub, fx_sub_s, fx_mul, fx_mul_s, fx_div, fx_div_s, fx_abs,
    fx_abs_s, fx_min, fx_min_s, fx_max, fx_max_s, fx_trunc_s, fx_ceil, fx_ceil_s, fx_sqrt,
    fx_sqrt_s, fx_clamp, fx_clamp_s, fx_to_u8, fx_to_u32, u8_sat_s, u32_sat_s, sat, sabs,
    fx_neg, fx_neg_s, fx_to_i32, i32_sat_s, lemma_trunc_mono,
};
use crate::matrix::{Matrix, at, mul_cell_s, pt_row_s};
use crate::model::{Vertex, Material, Mesh, Model};
use crate::framebuffer::Framebuffer;

/// The fixed light direction of the shader.
pub const LIGHT_X: i64 = 19661;

pub const LIGHT_Y: i64 = -45875;

pub const LIGHT_Z: i64 = 32768;

/// The ambient floor of the light intensity.
pub const AMBIENT: i64 = 13107;

/// The color scale `255.99` in fixed point.
pub const COL_SCALE: i64 = 16776561;

/// Pack three color bytes into `0x00RRGGBB`.
pub open spec fn rgb_s(r: int, g: int, b: int) -> int {
    r * 65536 + g * 256 + b
}

/// Pack an RGB triple into a 32-bit pixel value.
pub fn rgb_to_u32(r: u8, g: u8, b: u8) -> (c: u32)
    ensures
        c as int == rgb_s(r as int, g as int, b as int),
{
    let (r2, g2, b2) = (r as u32, g as u32, b as u32);
    let c: u32 = (r2 << 16) | (g2 << 8) | b2;
    proof {
        assert(c == r2 * 65536 + g2 * 256 + b2) by (bit_vector)
            requires
                c == (r2 << 16) | (g2 << 8) | b2,
                r2 < 256,
                g2 < 256,
                b2 < 256,
        ;
    }
    c
}

/// Row-major backing index of pixel `(x, y)` on a grid `w` wide.
pub open spec fn pix(w: int, x: int, y: int) -> int {
    x + y * w
}

/// Homogeneous component `j` of a point pushed through `mvp`.
pub open spec fn proj4_s(mvp: Seq<Seq<i64>>, x: int, y: int, z: int, j: int) -> int {
    mul_cell_s(mvp, pt_row_s(x, y, z), 0, j, 4)
}

/// Reciprocal of the absolute perspective divisor of a projected point.
pub open spec fn rec_s(mvp: Seq<Seq<i64>>, x: int, y: int, z: int) -> int {
    fx_div_s(FX_ONE as int, fx_abs_s(proj4_s(mvp, x, y, z, 3)))
}

/// Normalized device coordinate `j` of a projected point.
pub open spec fn ndc_s(mvp: Seq<Seq<i64>>, x: int, y: int, z: int, j: int) -> int {
    fx_mul_s(proj4_s(mvp, x, y, z, j), rec_s(mvp, x, y, z))
}

/// Map one clip coordinate in `[-1, 1]` to `[0, size]`.
pub open spec fn clip_s(c: int, size_fx: int) -> int {
    fx_mul_s(fx_add_s(fx_mul_s(c, 32768), 32768), size_fx)
}

/// The signed edge function: which side of the directed edge `a -> b`
/// the point `p` lies on, scaled by twice the triangle area.
pub open spec fn edge_s(ax: int, ay: int, bx: int, by: int, px: int, py: int) -> int {
    fx_sub_s(
        fx_mul_s(fx_sub_s(px, ax), fx_sub_s(by, ay)),
        fx_mul_s(fx_sub_s(py, ay), fx_sub_s(bx, ax)),
    )
}

/// Component `k` of a direction pushed through the inverse-transpose
/// model matrix with a zero homogeneous coordinate.
pub open spec fn tn_s(n0: int, n1: int, n2: int, m: Seq<Seq<i64>>, k: int) -> int {
    fx_add_s(
        fx_add_s(
            fx_add_s(fx_mul_s(n0, at(m, 0, k)), fx_mul_s(n1, at(m, 1, k))),
            fx_mul_s(n2, at(m, 2, k)),
        ),
        fx_mul_s(0, at(m, 3, k)),
    )
}

/// Project `p` through `mvp`: normalized device coordinates and the
/// reciprocal of the absolute perspective divisor.
pub fn project(p: &[i64; 3], mvp: &Matrix) -> (r: ([i64; 3], i64))
    requires
        mvp.wf(),
        mvp.nrows() == 4,
        mvp.ncols() == 4,
    ensures
        forall|j: int|
            0 <= j < 3 ==> r.0[j] as int == ndc_s(mvp@, p[0] as int, p[1] as int, p[2] as int, j),
        r.1 as int == rec_s(mvp@, p[0] as int, p[1] as int, p[2] as int),
{
    let hom: [i64; 4] = project4(p, mvp);
    let rec: i64 = fx_div(FX_ONE, fx_abs(hom[3]));
    let out: [i64; 3] = [fx_mul(hom[0], rec), fx_mul(hom[1], rec), fx_mul(hom[2], rec)];
    (out, rec)
}

/// The four homogeneous components of `p` pushed through `mvp`.
fn project4(p: &[i64; 3], mvp: &Matrix) -> (r: [i64; 4])
    requires
        mvp.wf(),
        mvp.nrows() == 4,
        mvp.ncols() == 4,
    ensures
        forall|j: int|
            0 <= j < 4 ==> r[j] as int == proj4_s(mvp@, p[0] as int, p[1] as int, p[2] as int, j),
{
    let mut prow: Vec<i64> = Vec::new();
    prow.push(p[0]);
    prow.push(p[1]);
    prow.push(p[2]);
    prow.push(FX_ONE);
    let mut rows: Vec<Vec<i64>> = Vec::new();
    rows.push(prow);
    let pm: Matrix = Matrix { rows };
    assert(pm@ =~~= pt_row_s(p[0] as int, p[1] as int, p[2] as int));
    let prod: Matrix = mvp.mul(&pm);
    proof {
        prod.lemma_view_row(0);
    }
    let out: [i64; 4] = [prod.rows[0][0], prod.rows[0][1], prod.rows[0][2], prod.rows[0][3]];
    proof {
        assert(pm@ == pt_row_s(p[0] as int, p[1] as int, p[2] as int));
        assert forall|j: int|
            0 <= j < 4 implies out[j] as int == proj4_s(
            mvp@,
            p[0] as int,
            p[1] as int,
            p[2] as int,
            j,
        ) by {
            assert(at(prod@, 0, j) == mul_cell_s(mvp@, pm@, 0, j, 4));
            assert(out[0] == prod.rows@[0]@[0] && out[1] == prod.rows@[0]@[1] && out[2]
                == prod.rows@[0]@[2] && out[3] == prod.rows@[0]@[3]);
        }
    }
    out
}

/// Map clip-space x and y to pixel coordinates.
pub fn clip_to_screen(clip: [i64; 2], screen_size: [i64; 2]) -> (r: [i64; 2])
    ensures
        r[0] as int == clip_s(clip[0] as int, screen_size[0] as int),
        r[1] as int == clip_s(clip[1] as int, screen_size[1] as int),
{
    let x: i64 = fx_mul(fx_add(fx_mul(clip[0], 32768), 32768), screen_size[0]);
    let y: i64 = fx_mul(fx_add(fx_mul(clip[1], 32768), 32768), screen_size[1]);
    let out: [i64; 2] = [x, y];
    proof {
        assert(out[0] == x && out[1] == y);
    }
    out
}

/// The signed edge function of the directed edge `a -> b` at `p`.
pub fn edge(a: &[i64; 2], b: &[i64; 2], p: &[i64; 2]) -> (r: i64)
    ensures
        r as int == edge_s(a[0] as int, a[1] as int, b[0] as int, b[1] as int, p[0] as int, p[1] as int),
{
    fx_sub(
        fx_mul(fx_sub(p[0], a[0]), fx_sub(b[1], a[1])),
        fx_mul(fx_sub(p[1], a[1]), fx_sub(b[0], a[0])),
    )
}

/// Transform a normal into world space by the inverse-transpose model
/// matrix, ignoring translation.
pub fn transform_normal(normal: [i64; 3], invmod: &Matrix) -> (r: [i64; 3])
    requires
        invmod.wf(),
        invmod.nrows() == 4,
        invmod.ncols() == 4,
    ensures
        forall|k: int|
            0 <= k < 3 ==> r[k] as int == tn_s(
                normal[0] as int,
                normal[1] as int,
                normal[2] as int,
                invmod@,
                k,
            ),
{
    proof {
        invmod.lemma_view_row(0);
        invmod.lemma_view_row(1);
        invmod.lemma_view_row(2);
        invmod.lemma_view_row(3);
    }
    let c0: i64 = tn_col(normal, invmod, 0);
    let c1: i64 = tn_col(normal, invmod, 1);
    let c2: i64 = tn_col(normal, invmod, 2);
    let out: [i64; 3] = [c0, c1, c2];
    proof {
        assert(out[0] == c0 && out[1] == c1 && out[2] == c2);
    }
    out
}

fn tn_col(normal: [i64; 3], invmod: &Matrix, k: usize) -> (r: i64)
    requires
        invmod.wf(),
        invmod.nrows() == 4,
        invmod.ncols() == 4,
        k < 4,
    ensures
        r as int == tn_s(normal[0] as int, normal[1] as int, normal[2] as int, invmod@, k as int),
{
    proof {
        invmod.lemma_view_row(0);
        invmod.lemma_view_row(1);
        invmod.lemma_view_row(2);
        invmod.lemma_view_row(3);
    }
    fx_add(
        fx_add(
            fx_add(
                fx_mul(normal[0], invmod.rows[0][k]),
                fx_mul(normal[1], invmod.rows[1][k]),
            ),
            fx_mul(normal[2], invmod.rows[2][k]),
        ),
        fx_mul(0, invmod.rows[3][k]),
    )
}

/// Fixed-point position component `k` of a vertex.
pub open spec fn vx(v: Vertex, k: int) -> int {
    v.position[k] as int
}

/// Perspective reciprocal of a projected vertex.
pub open spec fn vrec_s(mvp: Seq<Seq<i64>>, v: Vertex) -> int {
    rec_s(mvp, vx(v, 0), vx(v, 1), vx(v, 2))
}

/// Normalized device coordinate `j` of a projected vertex.
pub open spec fn vndc_s(mvp: Seq<Seq<i64>>, v: Vertex, j: int) -> int {
    ndc_s(mvp, vx(v, 0), vx(v, 1), vx(v, 2), j)
}

/// Screen x of a projected vertex on a grid `w` wide.
pub open spec fn vsx_s(mvp: Seq<Seq<i64>>, v: Vertex, w: int) -> int {
    clip_s(vndc_s(mvp, v, 0), w * (FX_ONE as int))
}

/// Screen y of a projected vertex on a grid `h` high.
pub open spec fn vsy_s(mvp: Seq<Seq<i64>>, v: Vertex, h: int) -> int {
    clip_s(vndc_s(mvp, v, 1), h * (FX_ONE as int))
}

/// A triangle is discarded wholesale iff all three perspective
/// reciprocals are negative (fully behind the camera).
pub open spec fn discard_s(mvp: Seq<Seq<i64>>, v0: Vertex, v1: Vertex, v2: Vertex) -> bool {
    vrec_s(mvp, v0) < 0 && vrec_s(mvp, v1) < 0 && vrec_s(mvp, v2) < 0
}

/// Left edge of the clamped screen bounding box.
pub open spec fn xs_s(mvp: Seq<Seq<i64>>, v0: Vertex, v1: Vertex, v2: Vertex, w: int) -> int {
    u32_sat_s(
        fx_trunc_s(
            fx_max_s(fx_min_s(fx_min_s(vsx_s(mvp, v0, w), vsx_s(mvp, v1, w)), vsx_s(mvp, v2, w)), 0),
        ),
    )
}

/// Top edge of the clamped screen bounding box.
pub open spec fn ys_s(mvp: Seq<Seq<i64>>, v0: Vertex, v1: Vertex, v2: Vertex, h: int) -> int {
    u32_sat_s(
        fx_trunc_s(
            fx_max_s(fx_min_s(fx_min_s(vsy_s(mvp, v0, h), vsy_s(mvp, v1, h)), vsy_s(mvp, v2, h)), 0),
        ),
    )
}

/// Right edge (exclusive) of the clamped screen bounding box.
pub open spec fn xl_s(mvp: Seq<Seq<i64>>, v0: Vertex, v1: Vertex, v2: Vertex, w: int) -> int {
    u32_sat_s(
        fx_ceil_s(
            fx_min_s(
                fx_max_s(fx_max_s(vsx_s(mvp, v0, w), vsx_s(mvp, v1, w)), vsx_s(mvp, v2, w)),
                (w - 1) * (FX_ONE as int),
            ),
        ),
    )
}

/// Bottom edge (exclusive) of the clamped screen bounding box.
pub open spec fn yl_s(mvp: Seq<Seq<i64>>, v0: Vertex, v1: Vertex, v2: Vertex, h: int) -> int {
    u32_sat_s(
        fx_ceil_s(
            fx_min_s(
                fx_max_s(fx_max_s(vsy_s(mvp, v0, h), vsy_s(mvp, v1, h)), vsy_s(mvp, v2, h)),
                (h - 1) * (FX_ONE as int),
            ),
        ),
    )
}

/// Perspective-correct interpolation: each attribute is weighted by its
/// vertex's reciprocal and barycentric weight, then rescaled by the
/// common correction factor.
pub open spec fn interp_s(
    w0: int,
    r0: int,
    b0: int,
    w1: int,
    r1: int,
    b1: int,
    w2: int,
    r2: int,
    b2: int,
    corr: int,
) -> int {
    fx_mul_s(
        fx_add_s(
            fx_add_s(fx_mul_s(fx_mul_s(w0, r0), b0), fx_mul_s(fx_mul_s(w1, r1), b1)),
            fx_mul_s(fx_mul_s(w2, r2), b2),
        ),
        corr,
    )
}

/// Base color channel `k`: the material's flat color, modulated by the
/// nearest texel when a texture is present.
pub open spec fn base_chan_s(mat: Material, t0: int, t1: int, k: int) -> int {
    match mat.base_color_texture {
        Some(t) => fx_mul_s(mat.base_col[k] as int, t.texel_s(t0, t1, k)),
        None => mat.base_col[k] as int,
    }
}

/// The packed color of an accepted pixel: perspective-correct normal,
/// normalized and pushed through the inverse-transpose model matrix;
/// perspective-correct texture coordinates; texture-modulated base
/// color; one directional light clamped to the ambient floor.
#[verifier::opaque]
pub open spec fn shade_color_s(
    v0: Vertex,
    v1: Vertex,
    v2: Vertex,
    invmod: Seq<Seq<i64>>,
    mat: Material,
    r0: int,
    r1: int,
    r2: int,
    b0: int,
    b1: int,
    b2: int,
) -> int {
    let corr = fx_div_s(
        FX_ONE as int,
        fx_add_s(fx_add_s(fx_mul_s(b0, r0), fx_mul_s(b1, r1)), fx_mul_s(b2, r2)),
    );
    let n0 = interp_s(
        v0.normal[0] as int, r0, b0, v1.normal[0] as int, r1, b1, v2.normal[0] as int, r2, b2, corr,
    );
    let n1 = interp_s(
        v0.normal[1] as int, r0, b0, v1.normal[1] as int, r1, b1, v2.normal[1] as int, r2, b2, corr,
    );
    let n2 = interp_s(
        v0.normal[2] as int, r0, b0, v1.normal[2] as int, r1, b1, v2.normal[2] as int, r2, b2, corr,
    );
    let len = fx_sqrt_s(
        fx_add_s(fx_add_s(fx_mul_s(n0, n0), fx_mul_s(n1, n1)), fx_mul_s(n2, n2)),
    );
    let m0 = fx_div_s(n0, len);
    let m1 = fx_div_s(n1, len);
    let m2 = fx_div_s(n2, len);
    let w0 = tn_s(m0, m1, m2, invmod, 0);
    let w1 = tn_s(m0, m1, m2, invmod, 1);
    let w2 = tn_s(m0, m1, m2, invmod, 2);
    let t0 = interp_s(
        v0.tex_coord[0] as int,
        r0,
        b0,
        v1.tex_coord[0] as int,
        r1,
        b1,
        v2.tex_coord[0] as int,
        r2,
        b2,
        corr,
    );
    let t1 = interp_s(
        v0.tex_coord[1] as int,
        r0,
        b0,
        v1.tex_coord[1] as int,
        r1,
        b1,
        v2.tex_coord[1] as int,
        r2,
        b2,
        corr,
    );
    let inten = fx_clamp_s(
        fx_add_s(
            fx_add_s(fx_mul_s(w0, LIGHT_X as int), fx_mul_s(w1, LIGHT_Y as int)),
            fx_mul_s(w2, LIGHT_Z as int),
        ),
        AMBIENT as int,
        FX_ONE as int,
    );
    rgb_s(
        u8_sat_s(
            fx_trunc_s(fx_mul_s(fx_mul_s(base_chan_s(mat, t0, t1, 0), inten), COL_SCALE as int)),
        ),
        u8_sat_s(
            fx_trunc_s(fx_mul_s(fx_mul_s(base_chan_s(mat, t0, t1, 1), inten), COL_SCALE as int)),
        ),
        u8_sat_s(
            fx_trunc_s(fx_mul_s(fx_mul_s(base_chan_s(mat, t0, t1, 2), inten), COL_SCALE as int)),
        ),
    )
}

/// The coverage, weight and depth computation at pixel `(x, y)`, over
/// already-projected screen coordinates, reciprocals and depths:
/// `Some((packed color, depth))` iff the pixel center is strictly inside
/// all three edges, the area reciprocal is nonzero, and the interpolated
/// depth lies in `[0, 1]`.
#[verifier::opaque]
pub open spec fn shade_px_s(
    v0: Vertex,
    v1: Vertex,
    v2: Vertex,
    invmod: Seq<Seq<i64>>,
    mat: Material,
    ax: int,
    ay: int,
    bx: int,
    by: int,
    cx: int,
    cy: int,
    r0: int,
    r1: int,
    r2: int,
    z0: int,
    z1: int,
    z2: int,
    x: int,
    y: int,
) -> Option<(int, int)> {
    let px = x * (FX_ONE as int);
    let py = y * (FX_ONE as int);
    let a0 = edge_s(bx, by, cx, cy, px, py);
    let a1 = edge_s(cx, cy, ax, ay, px, py);
    let a2 = edge_s(ax, ay, bx, by, px, py);
    if !(a0 < 0 && a1 < 0 && a2 < 0) {
        None
    } else {
        let arep = fx_div_s(FX_ONE as int, edge_s(ax, ay, bx, by, cx, cy));
        if arep == 0 {
            None
        } else {
            let b0 = fx_mul_s(a0, arep);
            let b1 = fx_mul_s(a1, arep);
            let b2 = fx_mul_s(a2, arep);
            let z = fx_add_s(
                fx_add_s(fx_mul_s(z0, b0), fx_mul_s(z1, b1)),
                fx_mul_s(z2, b2),
            );
            if !(0 <= z <= FX_ONE as int) {
                None
            } else {
                Some((shade_color_s(v0, v1, v2, invmod, mat, r0, r1, r2, b0, b1, b2), z))
            }
        }
    }
}

/// `shade_px_s` with the projections derived from the vertices.
pub open spec fn shade_s(
    v0: Vertex,
    v1: Vertex,
    v2: Vertex,
    mvp: Seq<Seq<i64>>,
    invmod: Seq<Seq<i64>>,
    mat: Material,
    w: int,
    h: int,
    x: int,
    y: int,
) -> Option<(int, int)> {
    shade_px_s(
        v0,
        v1,
        v2,
        invmod,
        mat,
        vsx_s(mvp, v0, w),
        vsy_s(mvp, v0, h),
        vsx_s(mvp, v1, w),
        vsy_s(mvp, v1, h),
        vsx_s(mvp, v2, w),
        vsy_s(mvp, v2, h),
        vrec_s(mvp, v0),
        vrec_s(mvp, v1),
        vrec_s(mvp, v2),
        vndc_s(mvp, v0, 2),
        vndc_s(mvp, v1, 2),
        vndc_s(mvp, v2, 2),
        x,
        y,
    )
}

pub open spec fn shade_col_of(o: Option<(int, int)>) -> int {
    match o {
        Some(p) => p.0,
        None => 0,
    }
}

pub open spec fn shade_z_of(o: Option<(int, int)>) -> int {
    match o {
        Some(p) => p.1,
        None => 0,
    }
}

/// The rasterizer writes pixel `(i, j)` iff the triangle is not
/// discarded, the pixel lies in the clamped bounding box, the shader
/// accepts it, and its depth is strictly closer than the stored depth.
pub open spec fn tri_writes_s(
    v0: Vertex,
    v1: Vertex,
    v2: Vertex,
    mvp: Seq<Seq<i64>>,
    invmod: Seq<Seq<i64>>,
    mat: Material,
    w: int,
    h: int,
    dold: Seq<u32>,
    i: int,
    j: int,
) -> bool {
    &&& !discard_s(mvp, v0, v1, v2)
    &&& xs_s(mvp, v0, v1, v2, w) <= i < xl_s(mvp, v0, v1, v2, w)
    &&& ys_s(mvp, v0, v1, v2, h) <= j < yl_s(mvp, v0, v1, v2, h)
    &&& shade_s(v0, v1, v2, mvp, invmod, mat, w, h, i, j) is Some
    &&& shade_z_of(shade_s(v0, v1, v2, mvp, invmod, mat, w, h, i, j)) < dold[pix(w, i, j)] as int
}

/// The color and depth planes after one triangle, as whole grids:
/// cell `k` belongs to pixel `(k % w, k / w)` and takes the shader's
/// color and depth iff the rasterizer writes that pixel.
#[verifier::opaque]
pub open spec fn tri_apply_s(
    fbv: Seq<u32>,
    dbv: Seq<u32>,
    v0: Vertex,
    v1: Vertex,
    v2: Vertex,
    mvp: Seq<Seq<i64>>,
    invmod: Seq<Seq<i64>>,
    mat: Material,
    w: int,
    h: int,
) -> (Seq<u32>, Seq<u32>) {
    (
        Seq::new(
            fbv.len(),
            |k: int|
                if tri_writes_s(v0, v1, v2, mvp, invmod, mat, w, h, dbv, k % w, k / w) {
                    shade_col_of(shade_s(v0, v1, v2, mvp, invmod, mat, w, h, k % w, k / w)) as u32
                } else {
                    fbv[k]
                },
        ),
        Seq::new(
            dbv.len(),
            |k: int|
                if tri_writes_s(v0, v1, v2, mvp, invmod, mat, w, h, dbv, k % w, k / w) {
                    shade_z_of(shade_s(v0, v1, v2, mvp, invmod, mat, w, h, k % w, k / w)) as u32
                } else {
                    dbv[k]
                },
        ),
    )
}

/// Every backing index is the index of exactly the pixel
/// `(k % w, k / w)`.
pub proof fn lemma_pix_cover(w: int, h: int)
    requires
        w >= 1,
    ensures
        forall|k: int|
            0 <= k < w * h ==> 0 <= #[trigger] (k % w) < w && 0 <= k / w < h && pix(
                w,
                k % w,
                k / w,
            ) == k,
{
    assert(forall|k: int|
        #![trigger k % w]
        0 <= k < w * h ==> 0 <= k % w < w && 0 <= k / w < h && k % w + (k / w) * w == k)
        by (nonlinear_arith)
        requires
            w >= 1,
    ;
}

/// Backing indices of in-bounds pixels are in range, and distinct
/// pixels have distinct indices.
pub proof fn lemma_pix_grid(w: int, h: int)
    ensures
        forall|i: int, j: int|
            0 <= i < w && 0 <= j < h ==> 0 <= #[trigger] pix(w, i, j) < w * h,
        forall|i: int, j: int, i2: int, j2: int|
            0 <= i < w && 0 <= j < h && 0 <= i2 < w && 0 <= j2 < h && #[trigger] pix(w, i, j)
                == #[trigger] pix(w, i2, j2) ==> i == i2 && j == j2,
{
    assert(forall|i: int, j: int|
        #![trigger i + j * w]
        0 <= i < w && 0 <= j < h ==> 0 <= i + j * w < w * h) by (nonlinear_arith);
    assert(forall|i: int, j: int, i2: int, j2: int|
        #![trigger i + j * w, i2 + j2 * w]
        0 <= i < w && 0 <= j < h && 0 <= i2 < w && 0 <= j2 < h && i + j * w == i2 + j2 * w ==> i
            == i2 && j == j2) by (nonlinear_arith);
}

/// Backing indices of distinct in-bounds pixels are distinct and in
/// range.
pub proof fn lemma_pix(w: int, h: int, x: int, y: int)
    requires
        0 <= x < w,
        0 <= y < h,
    ensures
        0 <= pix(w, x, y) < w * h,
        forall|i: int, j: int|
            0 <= i < w && 0 <= j < h && #[trigger] pix(w, i, j) == pix(w, x, y) ==> i == x && j
                == y,
{
    assert(0 <= x + y * w < w * h && forall|i: int, j: int|
        #![trigger i + j * w]
        0 <= i < w && 0 <= j < h && i + j * w == x + y * w ==> i == x && j == y)
        by (nonlinear_arith)
        requires
            0 <= x < w,
            0 <= y < h,
    ;
}

/// A fixed-point value at or below `n * FX_ONE` rounds up to at most
/// `n`.
proof fn lemma_ceil_le(val: int, n: int)
    requires
        val <= n * (FX_ONE as int),
    ensures
        fx_ceil_s(val) <= n,
{
    assert(fx_ceil_s(val) <= n) by (nonlinear_arith)
        requires
            val <= n * 65536,
    ;
}

fn edge_pt(ax: i64, ay: i64, bx: i64, by: i64, px: i64, py: i64) -> (r: i64)
    ensures
        r as int == edge_s(ax as int, ay as int, bx as int, by as int, px as int, py as int),
{
    fx_sub(fx_mul(fx_sub(px, ax), fx_sub(by, ay)), fx_mul(fx_sub(py, ay), fx_sub(bx, ax)))
}

fn interp(
    w0: i64,
    r0: i64,
    b0: i64,
    w1: i64,
    r1: i64,
    b1: i64,
    w2: i64,
    r2: i64,
    b2: i64,
    corr: i64,
) -> (r: i64)
    ensures
        r as int == interp_s(
            w0 as int,
            r0 as int,
            b0 as int,
            w1 as int,
            r1 as int,
            b1 as int,
            w2 as int,
            r2 as int,
            b2 as int,
            corr as int,
        ),
{
    fx_mul(
        fx_add(
            fx_add(fx_mul(fx_mul(w0, r0), b0), fx_mul(fx_mul(w1, r1), b1)),
            fx_mul(fx_mul(w2, r2), b2),
        ),
        corr,
    )
}

fn sat_u32(t: i64) -> (r: u32)
    ensures
        r as int == u32_sat_s(t as int),
{
    if t < 0 {
        0
    } else if t > u32::MAX as i64 {
        u32::MAX
    } else {
        t as u32
    }
}

/// Coverage test, depth and shading for one pixel.
#[verifier::rlimit(50)]
fn shade_pixel(
    v0: &Vertex,
    v1: &Vertex,
    v2: &Vertex,
    invmod: &Matrix,
    mat: &Material,
    ax: i64,
    ay: i64,
    bx: i64,
    by: i64,
    cx: i64,
    cy: i64,
    r0: i64,
    r1: i64,
    r2: i64,
    z0: i64,
    z1: i64,
    z2: i64,
    x: usize,
    y: usize,
) -> (res: Option<(u32, i64)>)
    requires
        invmod.wf(),
        invmod.nrows() == 4,
        invmod.ncols() == 4,
        mat.wf(),
        x <= 0x100000,
        y <= 0x100000,
    ensures
        res is Some <==> shade_px_s(
            *v0,
            *v1,
            *v2,
            invmod@,
            *mat,
            ax as int,
            ay as int,
            bx as int,
            by as int,
            cx as int,
            cy as int,
            r0 as int,
            r1 as int,
            r2 as int,
            z0 as int,
            z1 as int,
            z2 as int,
            x as int,
            y as int,
        ) is Some,
        res is Some ==> {
            let o = shade_px_s(
                *v0,
                *v1,
                *v2,
                invmod@,
                *mat,
                ax as int,
                ay as int,
                bx as int,
                by as int,
                cx as int,
                cy as int,
                r0 as int,
                r1 as int,
                r2 as int,
                z0 as int,
                z1 as int,
                z2 as int,
                x as int,
                y as int,
            );
            let p = res->0;
            p.0 as int == shade_col_of(o) && p.1 as int == shade_z_of(o) && 0 <= p.1 <= FX_ONE
        },
{
    proof {
        reveal(shade_px_s);
        reveal(shade_color_s);
    }
    let px: i64 = (x as i64) * 65536;
    let py: i64 = (y as i64) * 65536;
    let a0: i64 = edge_pt(bx, by, cx, cy, px, py);
    let a1: i64 = edge_pt(cx, cy, ax, ay, px, py);
    let a2: i64 = edge_pt(ax, ay, bx, by, px, py);
    if !(a0 < 0 && a1 < 0 && a2 < 0) {
        return None;
    }
    let area: i64 = edge_pt(ax, ay, bx, by, cx, cy);
    let arep: i64 = fx_div(FX_ONE, area);
    if arep == 0 {
        return None;
    }
    let b0: i64 = fx_mul(a0, arep);
    let b1: i64 = fx_mul(a1, arep);
    let b2: i64 = fx_mul(a2, arep);
    let z: i64 = fx_add(fx_add(fx_mul(z0, b0), fx_mul(z1, b1)), fx_mul(z2, b2));
    if z < 0 || z > FX_ONE {
        return None;
    }
    let corr: i64 = fx_div(FX_ONE, fx_add(fx_add(fx_mul(b0, r0), fx_mul(b1, r1)), fx_mul(b2, r2)));
    let n0: i64 = interp(v0.normal[0], r0, b0, v1.normal[0], r1, b1, v2.normal[0], r2, b2, corr);
    let n1: i64 = interp(v0.normal[1], r0, b0, v1.normal[1], r1, b1, v2.normal[1], r2, b2, corr);
    let n2: i64 = interp(v0.normal[2], r0, b0, v1.normal[2], r1, b1, v2.normal[2], r2, b2, corr);
    let len: i64 = fx_sqrt(fx_add(fx_add(fx_mul(n0, n0), fx_mul(n1, n1)), fx_mul(n2, n2)));
    let m0: i64 = fx_div(n0, len);
    let m1: i64 = fx_div(n1, len);
    let m2: i64 = fx_div(n2, len);
    let nrm: [i64; 3] = [m0, m1, m2];
    proof {
        assert(nrm[0] == m0 && nrm[1] == m1 && nrm[2] == m2);
    }
    let wn: [i64; 3] = transform_normal(nrm, invmod);
    let t0: i64 = interp(
        v0.tex_coord[0],
        r0,
        b0,
        v1.tex_coord[0],
        r1,
        b1,
        v2.tex_coord[0],
        r2,
        b2,
        corr,
    );
    let t1: i64 = interp(
        v0.tex_coord[1],
        r0,
        b0,
        v1.tex_coord[1],
        r1,
        b1,
        v2.tex_coord[1],
        r2,
        b2,
        corr,
    );
    let base: [i64; 4] = match &mat.base_color_texture {
        Some(t) => {
            let tex: [i64; 4] = t.get_pixel(t0, t1);
            [
                fx_mul(mat.base_col[0], tex[0]),
                fx_mul(mat.base_col[1], tex[1]),
                fx_mul(mat.base_col[2], tex[2]),
                fx_mul(mat.base_col[3], tex[3]),
            ]
        },
        None => mat.base_col,
    };
    let inten: i64 = fx_clamp(
        fx_add(fx_add(fx_mul(wn[0], LIGHT_X), fx_mul(wn[1], LIGHT_Y)), fx_mul(wn[2], LIGHT_Z)),
        AMBIENT,
        FX_ONE,
    );
    let cr: u8 = fx_to_u8(fx_mul(fx_mul(base[0], inten), COL_SCALE));
    let cg: u8 = fx_to_u8(fx_mul(fx_mul(base[1], inten), COL_SCALE));
    let cb: u8 = fx_to_u8(fx_mul(fx_mul(base[2], inten), COL_SCALE));
    let col: u32 = rgb_to_u32(cr, cg, cb);
    proof {
        assert(base[0] as int == base_chan_s(*mat, t0 as int, t1 as int, 0) && base[1] as int
            == base_chan_s(*mat, t0 as int, t1 as int, 1) && base[2] as int == base_chan_s(
            *mat,
            t0 as int,
            t1 as int,
            2,
        ));
    }
    Some((col, z))
}

/// An accepted pixel's depth lies in `[0, FX_ONE]`.
pub proof fn lemma_shade_z_range(
    v0: Vertex,
    v1: Vertex,
    v2: Vertex,
    mvp: Seq<Seq<i64>>,
    invmod: Seq<Seq<i64>>,
    mat: Material,
    w: int,
    h: int,
    x: int,
    y: int,
)
    ensures
        shade_s(v0, v1, v2, mvp, invmod, mat, w, h, x, y) is Some ==> 0 <= shade_z_of(
            shade_s(v0, v1, v2, mvp, invmod, mat, w, h, x, y),
        ) <= FX_ONE as int,
{
    reveal(shade_px_s);
}

fn clip_pt(cx: i64, cy: i64, sx: i64, sy: i64) -> (r: (i64, i64))
    ensures
        r.0 as int == clip_s(cx as int, sx as int),
        r.1 as int == clip_s(cy as int, sy as int),
{
    (
        fx_mul(fx_add(fx_mul(cx, 32768), 32768), sx),
        fx_mul(fx_add(fx_mul(cy, 32768), 32768), sy),
    )
}

/// Rasterize one triangle into the color and depth buffers.
///
/// Every pixel of the final buffers is pinned: pixel `(i, j)` holds the
/// shader's color and depth iff `tri_writes_s` accepts it (covered,
/// depth in range, strictly closer than the stored depth), and its old
/// value otherwise.
#[verifier::loop_isolation(false)]
#[verifier::rlimit(100)]
pub fn draw_triangle(
    fb: &mut Framebuffer,
    depth_buffer: &mut Framebuffer,
    v0: &Vertex,
    v1: &Vertex,
    v2: &Vertex,
    mvp: &Matrix,
    invmod: &Matrix,
    mat: &Material,
)
    requires
        old(fb).wf(),
        old(depth_buffer).wf(),
        old(depth_buffer).spec_width() == old(fb).spec_width(),
        old(depth_buffer).spec_height() == old(fb).spec_height(),
        old(fb).spec_width() <= 0x100000,
        old(fb).spec_height() <= 0x100000,
        mvp.wf(),
        mvp.nrows() == 4,
        mvp.ncols() == 4,
        invmod.wf(),
        invmod.nrows() == 4,
        invmod.ncols() == 4,
        mat.wf(),
    ensures
        final(fb).wf(),
        final(depth_buffer).wf(),
        final(fb).spec_width() == old(fb).spec_width(),
        final(fb).spec_height() == old(fb).spec_height(),
        final(depth_buffer).spec_width() == old(fb).spec_width(),
        final(depth_buffer).spec_height() == old(fb).spec_height(),
        forall|i: int, j: int|
            #![trigger pix(old(fb).spec_width(), i, j)]
            0 <= i < old(fb).spec_width() && 0 <= j < old(fb).spec_height() ==> {
                let w = old(fb).spec_width();
                let h = old(fb).spec_height();
                let wr = tri_writes_s(
                    *v0,
                    *v1,
                    *v2,
                    mvp@,
                    invmod@,
                    *mat,
                    w,
                    h,
                    old(depth_buffer)@,
                    i,
                    j,
                );
                let o = shade_s(*v0, *v1, *v2, mvp@, invmod@, *mat, w, h, i, j);
                &&& final(fb)@[pix(w, i, j)] == (if wr {
                    shade_col_of(o) as u32
                } else {
                    old(fb)@[pix(w, i, j)]
                })
                &&& final(depth_buffer)@[pix(w, i, j)] == (if wr {
                    shade_z_of(o) as u32
                } else {
                    old(depth_buffer)@[pix(w, i, j)]
                })
            },
        ({
            let r = tri_apply_s(
                old(fb)@,
                old(depth_buffer)@,
                *v0,
                *v1,
                *v2,
                mvp@,
                invmod@,
                *mat,
                old(fb).spec_width(),
                old(fb).spec_height(),
            );
            final(fb)@ == r.0 && final(depth_buffer)@ == r.1
        }),
{
    let ghost gw: int = old(fb).spec_width();
    let ghost gh: int = old(fb).spec_height();
    proof {
        lemma_pix_grid(gw, gh);
    }
    let w: usize = fb.width();
    let h: usize = fb.height();
    let p0: ([i64; 3], i64) = project(&v0.position, mvp);
    let p1: ([i64; 3], i64) = project(&v1.position, mvp);
    let p2: ([i64; 3], i64) = project(&v2.position, mvp);
    proof {
        assert(p0.1 as int == vrec_s(mvp@, *v0) && p1.1 as int == vrec_s(mvp@, *v1) && p2.1 as int
            == vrec_s(mvp@, *v2));
    }
    if p0.1 < 0 && p1.1 < 0 && p2.1 < 0 {
        proof {
            reveal(tri_apply_s);
            let r = tri_apply_s(
                old(fb)@,
                old(depth_buffer)@,
                *v0,
                *v1,
                *v2,
                mvp@,
                invmod@,
                *mat,
                gw,
                gh,
            );
            assert(fb@ =~= r.0);
            assert(depth_buffer@ =~= r.1);
        }
        return ;
    }
    let swf: i64 = (w as i64) * 65536;
    let shf: i64 = (h as i64) * 65536;
    let (ax, ay): (i64, i64) = clip_pt(p0.0[0], p0.0[1], swf, shf);
    let (bx, by): (i64, i64) = clip_pt(p1.0[0], p1.0[1], swf, shf);
    let (cx, cy): (i64, i64) = clip_pt(p2.0[0], p2.0[1], swf, shf);
    proof {
        assert(ax as int == vsx_s(mvp@, *v0, gw) && ay as int == vsy_s(mvp@, *v0, gh));
        assert(bx as int == vsx_s(mvp@, *v1, gw) && by as int == vsy_s(mvp@, *v1, gh));
        assert(cx as int == vsx_s(mvp@, *v2, gw) && cy as int == vsy_s(mvp@, *v2, gh));
    }
    let xs_i: u32 = fx_to_u32(fx_max(fx_min(fx_min(ax, bx), cx), 0));
    let ys_i: u32 = fx_to_u32(fx_max(fx_min(fx_min(ay, by), cy), 0));
    let swm1: i64 = swf - 65536;
    let shm1: i64 = shf - 65536;
    let xl_i: u32 = sat_u32(fx_ceil(fx_min(fx_max(fx_max(ax, bx), cx), swm1)));
    let yl_i: u32 = sat_u32(fx_ceil(fx_min(fx_max(fx_max(ay, by), cy), shm1)));
    proof {
        assert(swm1 as int == (gw - 1) * 65536 && shm1 as int == (gh - 1) * 65536)
            by (nonlinear_arith)
            requires
                swm1 == swf - 65536,
                shm1 == shf - 65536,
                swf as int == gw * 65536,
                shf as int == gh * 65536,
        ;
        assert(xs_i as int == xs_s(mvp@, *v0, *v1, *v2, gw));
        assert(ys_i as int == ys_s(mvp@, *v0, *v1, *v2, gh));
        assert(xl_i as int == xl_s(mvp@, *v0, *v1, *v2, gw));
        assert(yl_i as int == yl_s(mvp@, *v0, *v1, *v2, gh));
        lemma_ceil_le(
            fx_min_s(
                fx_max_s(
                    fx_max_s(vsx_s(mvp@, *v0, gw), vsx_s(mvp@, *v1, gw)),
                    vsx_s(mvp@, *v2, gw),
                ),
                (gw - 1) * 65536,
            ),
            gw - 1,
        );
        lemma_ceil_le(
            fx_min_s(
                fx_max_s(
                    fx_max_s(vsy_s(mvp@, *v0, gh), vsy_s(mvp@, *v1, gh)),
                    vsy_s(mvp@, *v2, gh),
                ),
                (gh - 1) * 65536,
            ),
            gh - 1,
        );
        assert(gw >= 1 ==> xl_i as int <= gw - 1);
        assert(gh >= 1 ==> yl_i as int <= gh - 1);
        assert(gw == 0 ==> xl_i == 0);
        assert(gh == 0 ==> yl_i == 0);
    }
    let r0: i64 = p0.1;
    let r1: i64 = p1.1;
    let r2: i64 = p2.1;
    let z0: i64 = p0.0[2];
    let z1: i64 = p1.0[2];
    let z2: i64 = p2.0[2];
    let xl_u: usize = xl_i as usize;
    let yl_u: usize = yl_i as usize;
    let ys_u: usize = ys_i as usize;
    let mut x: usize = xs_i as usize;
    while x < xl_u
        invariant
            xs_i as usize <= x,
            x <= xl_u || x == xs_i as usize,
            fb.wf(),
            depth_buffer.wf(),
            fb.spec_width() == gw,
            fb.spec_height() == gh,
            depth_buffer.spec_width() == gw,
            depth_buffer.spec_height() == gh,
            forall|i: int, j: int|
                #![trigger pix(gw, i, j)]
                0 <= i < gw && 0 <= j < gh ==> {
                    let wr = tri_writes_s(
                        *v0,
                        *v1,
                        *v2,
                        mvp@,
                        invmod@,
                        *mat,
                        gw,
                        gh,
                        old(depth_buffer)@,
                        i,
                        j,
                    );
                    let o = shade_s(*v0, *v1, *v2, mvp@, invmod@, *mat, gw, gh, i, j);
                    &&& fb@[pix(gw, i, j)] == (if wr && i < x {
                        shade_col_of(o) as u32
                    } else {
                        old(fb)@[pix(gw, i, j)]
                    })
                    &&& depth_buffer@[pix(gw, i, j)] == (if wr && i < x {
                        shade_z_of(o) as u32
                    } else {
                        old(depth_buffer)@[pix(gw, i, j)]
                    })
                },
        decreases xl_u - x,
    {
        let mut y: usize = ys_u;
        while y < yl_u
            invariant
                ys_u <= y,
                y <= yl_u || y == ys_u,
                x < xl_u,
                xs_i as usize <= x,
                fb.wf(),
                depth_buffer.wf(),
                fb.spec_width() == gw,
                fb.spec_height() == gh,
                depth_buffer.spec_width() == gw,
                depth_buffer.spec_height() == gh,
                forall|i: int, j: int|
                    #![trigger pix(gw, i, j)]
                    0 <= i < gw && 0 <= j < gh ==> {
                        let wr = tri_writes_s(
                            *v0,
                            *v1,
                            *v2,
                            mvp@,
                            invmod@,
                            *mat,
                            gw,
                            gh,
                            old(depth_buffer)@,
                            i,
                            j,
                        );
                        let o = shade_s(*v0, *v1, *v2, mvp@, invmod@, *mat, gw, gh, i, j);
                        &&& fb@[pix(gw, i, j)] == (if wr && (i < x || (i == x && j < y)) {
                            shade_col_of(o) as u32
                        } else {
                            old(fb)@[pix(gw, i, j)]
                        })
                        &&& depth_buffer@[pix(gw, i, j)] == (if wr && (i < x || (i == x && j
                            < y)) {
                            shade_z_of(o) as u32
                        } else {
                            old(depth_buffer)@[pix(gw, i, j)]
                        })
                    },
            decreases yl_u - y,
        {
            let sp: Option<(u32, i64)> = shade_pixel(
                v0,
                v1,
                v2,
                invmod,
                mat,
                ax,
                ay,
                bx,
                by,
                cx,
                cy,
                r0,
                r1,
                r2,
                z0,
                z1,
                z2,
                x,
                y,
            );
            proof {
                assert(shade_s(*v0, *v1, *v2, mvp@, invmod@, *mat, gw, gh, x as int, y as int)
                    == shade_px_s(
                    *v0,
                    *v1,
                    *v2,
                    invmod@,
                    *mat,
                    ax as int,
                    ay as int,
                    bx as int,
                    by as int,
                    cx as int,
                    cy as int,
                    r0 as int,
                    r1 as int,
                    r2 as int,
                    z0 as int,
                    z1 as int,
                    z2 as int,
                    x as int,
                    y as int,
                ));
                lemma_pix(gw, gh, x as int, y as int);
            }
            match sp {
                Some(cz) => {
                    let d: u32 = depth_buffer.get_pixel(x, y);
                    let zu: u32 = cz.1 as u32;
                    if zu < d {
                        depth_buffer.set_pixel(x, y, zu);
                        fb.set_pixel(x, y, cz.0);
                    }
                },
                None => {},
            }
            y = y + 1;
        }
        x = x + 1;
    }
    proof {
        reveal(tri_apply_s);
        if gw >= 1 {
            lemma_pix_cover(gw, gh);
        }
        let r = tri_apply_s(
            old(fb)@,
            old(depth_buffer)@,
            *v0,
            *v1,
            *v2,
            mvp@,
            invmod@,
            *mat,
            gw,
            gh,
        );
        assert forall|k: int| 0 <= k < old(fb)@.len() implies fb@[k] == r.0[k] && depth_buffer@[k]
            == r.1[k] by {
            assert(pix(gw, k % gw, k / gw) == k);
        }
        assert(fb@ =~= r.0);
        assert(depth_buffer@ =~= r.1);
    }
}

/// The squared length of an integer pixel offset, as a fixed-point
/// value.
pub open spec fn dist_sq_s(xd: int, yd: int) -> int {
    sat((xd * xd + yd * yd) * (FX_ONE as int))
}

fn px_dist_sq(xd: i64, yd: i64) -> (r: i64)
    requires
        -0x100000000 <= xd <= 0x100000000,
        -0x100000000 <= yd <= 0x100000000,
    ensures
        r as int == dist_sq_s(xd as int, yd as int),
{
    proof {
        assert(0 <= (xd as int) * (xd as int) <= 0x10000000000000000 && 0 <= (yd as int) * (
        yd as int) <= 0x10000000000000000) by (nonlinear_arith)
            requires
                -0x100000000 <= xd as int <= 0x100000000,
                -0x100000000 <= yd as int <= 0x100000000,
        ;
    }
    let s: i128 = (xd as i128) * (xd as i128) + (yd as i128) * (yd as i128);
    let t: i128 = s * 65536;
    if t > 9223372036854775807i128 {
        9223372036854775807i64
    } else {
        t as i64
    }
}

pub open spec fn max0_s(v: int) -> int {
    if v > 0 {
        v
    } else {
        0
    }
}

/// The termination budget of the line walk while neither coordinate
/// moves: how far the error term still is from releasing the step that
/// must come next.
pub open spec fn line_stall_s(xne: bool, err: int, dx: int, dy: int) -> int {
    if xne {
        max0_s(-(2 * err) - dy + 1)
    } else {
        max0_s(2 * err - dx + 1)
    }
}

/// The fixed debug color of line overlays.
pub const LINE_COLOR: u32 = 0xff0000;

/// One visited pixel of the line walk: when `(x, y)` lies on the grid
/// and the depth interpolated along the screen-space distance to the
/// far endpoint is strictly below the stored depth, the pixel takes
/// the line color and that depth (saturated to the cell); otherwise
/// nothing changes.
#[verifier::opaque]
pub open spec fn line_step_px_s(
    fbv: Seq<u32>,
    dbv: Seq<u32>,
    w: int,
    h: int,
    x: int,
    y: int,
    xm: int,
    ym: int,
    v0z: int,
    dd: int,
    sd: int,
    dist: int,
) -> (Seq<u32>, Seq<u32>) {
    if 0 <= x < w && 0 <= y < h {
        let z = dbv[pix(w, x, y)];
        let ad = fx_sqrt_s(dist_sq_s(xm - x, ym - y));
        let t = fx_div_s(ad, dist);
        let d = fx_add_s(v0z, fx_mul_s(fx_mul_s(dd, t), sd));
        if d < z as int {
            (
                fbv.update(pix(w, x, y), LINE_COLOR),
                dbv.update(pix(w, x, y), u32_sat_s(d) as u32),
            )
        } else {
            (fbv, dbv)
        }
    } else {
        (fbv, dbv)
    }
}

/// The state facts the stepping loop maintains; the walk is defined
/// only over states satisfying them (on any other state it stops at
/// once, which keeps the definition total and terminating).
pub open spec fn line_walk_guard_s(
    x: int,
    y: int,
    xm: int,
    ym: int,
    err: int,
    dx: int,
    dy: int,
    sx: int,
    sy: int,
) -> bool {
    &&& 0 <= dx <= FX_MAX as int
    &&& 0 <= dy <= FX_MAX as int
    &&& (dx == 0 ==> x == xm)
    &&& (dy == 0 ==> y == ym)
    &&& ((sx == 1 && x <= xm) || (sx == -1 && x >= xm))
    &&& ((sy == 1 && y <= ym) || (sy == -1 && y >= ym))
    &&& -(FX_MAX as int) <= err
}

/// The whole depth-tested line walk: visit the current pixel, then
/// advance x and/or y by one toward the endpoint as the doubled error
/// term directs, until both coordinates arrive.
#[verifier::opaque]
pub open spec fn line_walk_s(
    fbv: Seq<u32>,
    dbv: Seq<u32>,
    w: int,
    h: int,
    x: int,
    y: int,
    xm: int,
    ym: int,
    err: int,
    dx: int,
    dy: int,
    sx: int,
    sy: int,
    v0z: int,
    dd: int,
    sd: int,
    dist: int,
) -> (Seq<u32>, Seq<u32>)
    decreases sabs(xm - x) + sabs(ym - y), line_stall_s(x != xm, err, dx, dy),
    via line_walk_dec
{
    if (x == xm && y == ym) || !line_walk_guard_s(x, y, xm, ym, err, dx, dy, sx, sy) {
        (fbv, dbv)
    } else {
        let stepped = line_step_px_s(fbv, dbv, w, h, x, y, xm, ym, v0z, dd, sd, dist);
        let e2 = fx_mul_s(err, 131072);
        let b1 = e2 > fx_neg_s(dy);
        let b2 = e2 < dx;
        let err1 = if b1 {
            fx_sub_s(err, dy)
        } else {
            err
        };
        let x1 = if b1 && x != xm {
            x + sx
        } else {
            x
        };
        let err2 = if b2 {
            fx_add_s(err1, dx)
        } else {
            err1
        };
        let y1 = if b2 && y != ym {
            y + sy
        } else {
            y
        };
        line_walk_s(
            stepped.0,
            stepped.1,
            w,
            h,
            x1,
            y1,
            xm,
            ym,
            err2,
            dx,
            dy,
            sx,
            sy,
            v0z,
            dd,
            sd,
            dist,
        )
    }
}

#[via_fn]
proof fn line_walk_dec(
    fbv: Seq<u32>,
    dbv: Seq<u32>,
    w: int,
    h: int,
    x: int,
    y: int,
    xm: int,
    ym: int,
    err: int,
    dx: int,
    dy: int,
    sx: int,
    sy: int,
    v0z: int,
    dd: int,
    sd: int,
    dist: int,
) {
    if !((x == xm && y == ym) || !line_walk_guard_s(x, y, xm, ym, err, dx, dy, sx, sy)) {
        assert(tdiv(err * 131072, 65536) == 2 * err) by (nonlinear_arith);
        let e2 = fx_mul_s(err, 131072);
        let b1 = e2 > fx_neg_s(dy);
        let b2 = e2 < dx;
        if !b1 && !b2 {
            // Impossible inside the guard: would force dx == dy == 0
            // with a coordinate still to travel.
            assert(dx == 0 && dy == 0);
            assert(false);
        } else if (b1 && x != xm) || (b2 && y != ym) {
            // A coordinate moves one step toward its endpoint.
            assert(sabs(xm - (if b1 && x != xm { x + sx } else { x })) + sabs(
                ym - (if b2 && y != ym { y + sy } else { y }),
            ) < sabs(xm - x) + sabs(ym - y));
        } else if b1 {
            // Stall with x arrived: the error term sinks by dy > 0
            // (or pins to the floor), shrinking the stall budget.
            assert(x == xm && y != ym && dy > 0);
            assert(2 * err >= dx);
            assert(line_stall_s(false, fx_sub_s(err, dy), dx, dy) < line_stall_s(
                false,
                err,
                dx,
                dy,
            ));
        } else {
            // Stall with y arrived: the error term rises by dx > 0
            // (or pins to the ceiling), shrinking the stall budget.
            assert(b2 && y == ym && x != xm && dx > 0);
            assert(2 * err <= -dy);
            assert(line_stall_s(true, fx_add_s(err, dx), dx, dy) < line_stall_s(true, err, dx, dy));
        }
    }
}

/// The line walk from the projected and screen-mapped endpoints of
/// `v0` and `v1`, with all of its stepping state derived the way the
/// drawing routine derives it.
#[verifier::opaque]
pub open spec fn line_apply_s(
    fbv: Seq<u32>,
    dbv: Seq<u32>,
    v0: [i64; 3],
    v1: [i64; 3],
    mvp: Seq<Seq<i64>>,
    w: int,
    h: int,
) -> (Seq<u32>, Seq<u32>) {
    let a0 = clip_s(ndc_s(mvp, v0[0] as int, v0[1] as int, v0[2] as int, 0), w * (FX_ONE as int));
    let a1 = clip_s(ndc_s(mvp, v0[0] as int, v0[1] as int, v0[2] as int, 1), h * (FX_ONE as int));
    let b0 = clip_s(ndc_s(mvp, v1[0] as int, v1[1] as int, v1[2] as int, 0), w * (FX_ONE as int));
    let b1 = clip_s(ndc_s(mvp, v1[0] as int, v1[1] as int, v1[2] as int, 1), h * (FX_ONE as int));
    let v0z = ndc_s(mvp, v0[0] as int, v0[1] as int, v0[2] as int, 2);
    let v1z = ndc_s(mvp, v1[0] as int, v1[1] as int, v1[2] as int, 2);
    let dx = fx_abs_s(fx_sub_s(a0, b0));
    let dy = fx_abs_s(fx_sub_s(a1, b1));
    let dist = fx_sqrt_s(fx_add_s(fx_mul_s(dx, dx), fx_mul_s(dy, dy)));
    let dd = fx_abs_s(fx_sub_s(v0z, v1z));
    let sx: int = if a0 < b0 {
        1
    } else {
        -1
    };
    let sy: int = if a1 < b1 {
        1
    } else {
        -1
    };
    let sd: int = if v0z < v1z {
        FX_ONE as int
    } else {
        -(FX_ONE as int)
    };
    line_walk_s(
        fbv,
        dbv,
        w,
        h,
        i32_sat_s(fx_trunc_s(a0)),
        i32_sat_s(fx_trunc_s(a1)),
        i32_sat_s(fx_trunc_s(b0)),
        i32_sat_s(fx_trunc_s(b1)),
        fx_sub_s(dx, dy),
        dx,
        dy,
        sx,
        sy,
        v0z,
        dd,
        sd,
        dist,
    )
}

/// Draw a depth-tested line between two projected points, stepping
/// pixel by pixel with an integer error term and interpolating depth
/// linearly along the screen-space distance.
///
/// The final buffers are pinned exactly by `line_apply_s`: the walk
/// visits each stepped pixel in order, and an in-bounds pixel takes
/// the line color and its interpolated depth iff that depth is
/// strictly below the stored one. The pointwise clause restates the
/// consequence per pixel: unchanged, or the line color with a depth
/// no farther than before.
#[verifier::loop_isolation(false)]
#[verifier::rlimit(100)]
pub fn draw_line(
    fb: &mut Framebuffer,
    depth_buffer: &mut Framebuffer,
    v0: &[i64; 3],
    v1: &[i64; 3],
    mvp: &Matrix,
)
    requires
        old(fb).wf(),
        old(depth_buffer).wf(),
        old(depth_buffer).spec_width() == old(fb).spec_width(),
        old(depth_buffer).spec_height() == old(fb).spec_height(),
        old(fb).spec_width() <= 0x100000,
        old(fb).spec_height() <= 0x100000,
        mvp.wf(),
        mvp.nrows() == 4,
        mvp.ncols() == 4,
    ensures
        final(fb).wf(),
        final(depth_buffer).wf(),
        final(fb).spec_width() == old(fb).spec_width(),
        final(fb).spec_height() == old(fb).spec_height(),
        final(depth_buffer).spec_width() == old(fb).spec_width(),
        final(depth_buffer).spec_height() == old(fb).spec_height(),
        forall|i: int, j: int|
            #![trigger pix(old(fb).spec_width(), i, j)]
            0 <= i < old(fb).spec_width() && 0 <= j < old(fb).spec_height() ==> (final(fb)@[pix(
                old(fb).spec_width(),
                i,
                j,
            )] == old(fb)@[pix(old(fb).spec_width(), i, j)] && final(depth_buffer)@[pix(
                old(fb).spec_width(),
                i,
                j,
            )] == old(depth_buffer)@[pix(old(fb).spec_width(), i, j)]) || (final(fb)@[pix(
                old(fb).spec_width(),
                i,
                j,
            )] == LINE_COLOR && (final(depth_buffer)@[pix(old(fb).spec_width(), i, j)] as int) <= (
            old(depth_buffer)@[pix(old(fb).spec_width(), i, j)] as int)),
        ({
            let r = line_apply_s(
                old(fb)@,
                old(depth_buffer)@,
                *v0,
                *v1,
                mvp@,
                old(fb).spec_width(),
                old(fb).spec_height(),
            );
            final(fb)@ == r.0 && final(depth_buffer)@ == r.1
        }),
{
    let ghost gw: int = old(fb).spec_width();
    let ghost gh: int = old(fb).spec_height();
    proof {
        lemma_pix_grid(gw, gh);
    }
    let w: usize = fb.width();
    let h: usize = fb.height();
    let v0c: ([i64; 3], i64) = project(v0, mvp);
    let v1c: ([i64; 3], i64) = project(v1, mvp);
    let swf: i64 = (w as i64) * 65536;
    let shf: i64 = (h as i64) * 65536;
    let (a0, a1): (i64, i64) = clip_pt(v0c.0[0], v0c.0[1], swf, shf);
    let (b0, b1): (i64, i64) = clip_pt(v1c.0[0], v1c.0[1], swf, shf);
    let dx: i64 = fx_abs(fx_sub(a0, b0));
    let dy: i64 = fx_abs(fx_sub(a1, b1));
    let dist: i64 = fx_sqrt(fx_add(fx_mul(dx, dx), fx_mul(dy, dy)));
    let dd: i64 = fx_abs(fx_sub(v0c.0[2], v1c.0[2]));
    let sx: i32 = if a0 < b0 {
        1
    } else {
        -1
    };
    let sy: i32 = if a1 < b1 {
        1
    } else {
        -1
    };
    let sd: i64 = if v0c.0[2] < v1c.0[2] {
        65536
    } else {
        -65536
    };
    let mut err: i64 = fx_sub(dx, dy);
    let mut x: i32 = fx_to_i32(a0);
    let mut y: i32 = fx_to_i32(a1);
    let xm: i32 = fx_to_i32(b0);
    let ym: i32 = fx_to_i32(b1);
    proof {
        if a0 as int <= b0 as int {
            lemma_trunc_mono(a0 as int, b0 as int);
        } else {
            lemma_trunc_mono(b0 as int, a0 as int);
        }
        if a1 as int <= b1 as int {
            lemma_trunc_mono(a1 as int, b1 as int);
        } else {
            lemma_trunc_mono(b1 as int, a1 as int);
        }
    }
    let ghost gv0z: int = v0c.0[2] as int;
    let ghost gtarget: (Seq<u32>, Seq<u32>) = line_walk_s(
        old(fb)@,
        old(depth_buffer)@,
        gw,
        gh,
        x as int,
        y as int,
        xm as int,
        ym as int,
        err as int,
        dx as int,
        dy as int,
        sx as int,
        sy as int,
        gv0z,
        dd as int,
        sd as int,
        dist as int,
    );
    proof {
        reveal(line_apply_s);
        assert(gtarget == line_apply_s(old(fb)@, old(depth_buffer)@, *v0, *v1, mvp@, gw, gh));
    }
    while x != xm || y != ym
        invariant
            fb.wf(),
            depth_buffer.wf(),
            fb.spec_width() == gw,
            fb.spec_height() == gh,
            depth_buffer.spec_width() == gw,
            depth_buffer.spec_height() == gh,
            dx >= 0,
            dy >= 0,
            -0x7fffffffffffffffi64 <= err,
            (sx == 1 && x <= xm) || (sx == -1 && x >= xm),
            (sy == 1 && y <= ym) || (sy == -1 && y >= ym),
            dx == 0 ==> x == xm,
            dy == 0 ==> y == ym,
            forall|i: int, j: int|
                #![trigger pix(gw, i, j)]
                0 <= i < gw && 0 <= j < gh ==> (fb@[pix(gw, i, j)] == old(fb)@[pix(gw, i, j)]
                    && depth_buffer@[pix(gw, i, j)] == old(depth_buffer)@[pix(gw, i, j)]) || (
                fb@[pix(gw, i, j)] == LINE_COLOR && (depth_buffer@[pix(gw, i, j)] as int) <= (old(
                depth_buffer,
                )@[pix(gw, i, j)] as int)),
            line_walk_s(
                fb@,
                depth_buffer@,
                gw,
                gh,
                x as int,
                y as int,
                xm as int,
                ym as int,
                err as int,
                dx as int,
                dy as int,
                sx as int,
                sy as int,
                gv0z,
                dd as int,
                sd as int,
                dist as int,
            ) == gtarget,
        decreases
                sabs(xm as int - x as int) + sabs(ym as int - y as int),
                line_stall_s(x != xm, err as int, dx as int, dy as int),
    {
        let ghost fpre = fb@;
        let ghost dpre = depth_buffer@;
        let ghost xp: int = x as int;
        let ghost yp: int = y as int;
        let ghost ep: int = err as int;
        if x >= 0 && x < w as i32 && y >= 0 && y < h as i32 {
            let xu: usize = x as usize;
            let yu: usize = y as usize;
            let z: u32 = depth_buffer.get_pixel(xu, yu);
            let xd: i64 = xm as i64 - x as i64;
            let yd: i64 = ym as i64 - y as i64;
            let ad: i64 = fx_sqrt(px_dist_sq(xd, yd));
            let t: i64 = fx_div(ad, dist);
            let d: i64 = fx_add(v0c.0[2], fx_mul(fx_mul(dd, t), sd));
            if d < z as i64 {
                depth_buffer.set_pixel(xu, yu, sat_u32(d));
                fb.set_pixel(xu, yu, rgb_to_u32(255, 0, 0));
                proof {
                    lemma_pix(gw, gh, x as int, y as int);
                }
            }
        }
        let e2: i64 = fx_mul(err, 131072);
        if e2 > fx_neg(dy) {
            err = fx_sub(err, dy);
            if x != xm {
                x = x + sx;
            }
        }
        if e2 < dx {
            err = fx_add(err, dx);
            if y != ym {
                y = y + sy;
            }
        }
        proof {
            reveal(line_walk_s);
            reveal(line_step_px_s);
            assert((fb@, depth_buffer@) == line_step_px_s(
                fpre,
                dpre,
                gw,
                gh,
                xp,
                yp,
                xm as int,
                ym as int,
                gv0z,
                dd as int,
                sd as int,
                dist as int,
            ));
            assert(line_walk_s(
                fpre,
                dpre,
                gw,
                gh,
                xp,
                yp,
                xm as int,
                ym as int,
                ep,
                dx as int,
                dy as int,
                sx as int,
                sy as int,
                gv0z,
                dd as int,
                sd as int,
                dist as int,
            ) == line_walk_s(
                fb@,
                depth_buffer@,
                gw,
                gh,
                x as int,
                y as int,
                xm as int,
                ym as int,
                err as int,
                dx as int,
                dy as int,
                sx as int,
                sy as int,
                gv0z,
                dd as int,
                sd as int,
                dist as int,
            ));
        }
    }
    proof {
        reveal(line_walk_s);
        assert(line_walk_s(
            fb@,
            depth_buffer@,
            gw,
            gh,
            x as int,
            y as int,
            xm as int,
            ym as int,
            err as int,
            dx as int,
            dy as int,
            sx as int,
            sy as int,
            gv0z,
            dd as int,
            sd as int,
            dist as int,
        ) == (fb@, depth_buffer@));
    }
}

/// The buffers after the first `t` triangles of one mesh, in index
/// order.
pub open spec fn mesh_apply_s(
    acc: (Seq<u32>, Seq<u32>),
    mesh: Mesh,
    mvp: Seq<Seq<i64>>,
    invmod: Seq<Seq<i64>>,
    mat: Material,
    w: int,
    h: int,
    t: int,
) -> (Seq<u32>, Seq<u32>)
    decreases t,
{
    if t <= 0 {
        acc
    } else {
        let prev = mesh_apply_s(acc, mesh, mvp, invmod, mat, w, h, t - 1);
        tri_apply_s(
            prev.0,
            prev.1,
            mesh.vertices@[mesh.indices@[3 * (t - 1)] as int],
            mesh.vertices@[mesh.indices@[3 * (t - 1) + 1] as int],
            mesh.vertices@[mesh.indices@[3 * (t - 1) + 2] as int],
            mvp,
            invmod,
            mat,
            w,
            h,
        )
    }
}

/// The buffers after the first `m` meshes of a model, each drawn with
/// its own material.
pub open spec fn model_apply_s(
    acc: (Seq<u32>, Seq<u32>),
    meshes: Seq<Mesh>,
    mats: Seq<Material>,
    mvp: Seq<Seq<i64>>,
    invmod: Seq<Seq<i64>>,
    w: int,
    h: int,
    m: int,
) -> (Seq<u32>, Seq<u32>)
    decreases m,
{
    if m <= 0 {
        acc
    } else {
        let prev = model_apply_s(acc, meshes, mats, mvp, invmod, w, h, m - 1);
        mesh_apply_s(
            prev,
            meshes[m - 1],
            mvp,
            invmod,
            mats[meshes[m - 1].material_idx as int],
            w,
            h,
            meshes[m - 1].indices@.len() as int / 3,
        )
    }
}

/// Rasterize every triangle of every mesh of `model`, resolving each
/// mesh's material. The result is the fold of the per-triangle grid
/// transform over every triangle in order. Depth values never move
/// away, and a pixel's color changes only when its depth strictly
/// decreases.
#[verifier::loop_isolation(false)]
#[verifier::rlimit(100)]
pub fn draw_model(
    fb: &mut Framebuffer,
    depth_buffer: &mut Framebuffer,
    model: &Model,
    mvp: &Matrix,
    invmod: &Matrix,
)
    requires
        old(fb).wf(),
        old(depth_buffer).wf(),
        old(depth_buffer).spec_width() == old(fb).spec_width(),
        old(depth_buffer).spec_height() == old(fb).spec_height(),
        old(fb).spec_width() <= 0x100000,
        old(fb).spec_height() <= 0x100000,
        model.wf(),
        mvp.wf(),
        mvp.nrows() == 4,
        mvp.ncols() == 4,
        invmod.wf(),
        invmod.nrows() == 4,
        invmod.ncols() == 4,
    ensures
        final(fb).wf(),
        final(depth_buffer).wf(),
        final(fb).spec_width() == old(fb).spec_width(),
        final(fb).spec_height() == old(fb).spec_height(),
        final(depth_buffer).spec_width() == old(fb).spec_width(),
        final(depth_buffer).spec_height() == old(fb).spec_height(),
        forall|i: int, j: int|
            #![trigger pix(old(fb).spec_width(), i, j)]
            0 <= i < old(fb).spec_width() && 0 <= j < old(fb).spec_height() ==> (final(depth_buffer)@[pix(old(fb).spec_width(), i, j)] as int) <= (old(depth_buffer)@[pix(
                old(fb).spec_width(),
                i,
                j,
            )] as int),
        forall|i: int, j: int|
            #![trigger pix(old(fb).spec_width(), i, j)]
            0 <= i < old(fb).spec_width() && 0 <= j < old(fb).spec_height() ==> (final(fb)@[pix(
                old(fb).spec_width(),
                i,
                j,
            )] == old(fb)@[pix(old(fb).spec_width(), i, j)]) || ((final(depth_buffer)@[pix(
                old(fb).spec_width(),
                i,
                j,
            )] as int) < (old(depth_buffer)@[pix(old(fb).spec_width(), i, j)] as int)),
        ({
            let r = model_apply_s(
                (old(fb)@, old(depth_buffer)@),
                model.meshes@,
                model.mats@,
                mvp@,
                invmod@,
                old(fb).spec_width(),
                old(fb).spec_height(),
                model.meshes@.len() as int,
            );
            final(fb)@ == r.0 && final(depth_buffer)@ == r.1
        }),
{
    let ghost gw: int = old(fb).spec_width();
    let ghost gh: int = old(fb).spec_height();
    proof {
        lemma_pix_grid(gw, gh);
    }
    let nm: usize = model.meshes.len();
    let mut m: usize = 0;
    while m < nm
        invariant
            m <= nm,
            fb.wf(),
            depth_buffer.wf(),
            fb.spec_width() == gw,
            fb.spec_height() == gh,
            depth_buffer.spec_width() == gw,
            depth_buffer.spec_height() == gh,
            forall|i: int, j: int|
                #![trigger pix(gw, i, j)]
                0 <= i < gw && 0 <= j < gh ==> depth_buffer@[pix(gw, i, j)] as int <= old(
                    depth_buffer,
                )@[pix(gw, i, j)] as int,
            forall|i: int, j: int|
                #![trigger pix(gw, i, j)]
                0 <= i < gw && 0 <= j < gh ==> (fb@[pix(gw, i, j)] == old(fb)@[pix(
                    gw,
                    i,
                    j,
                )]) || ((depth_buffer@[pix(gw, i, j)] as int) < (old(depth_buffer)@[pix(
                    gw,
                    i,
                    j,
                )] as int)),
            (fb@, depth_buffer@) == model_apply_s(
                (old(fb)@, old(depth_buffer)@),
                model.meshes@,
                model.mats@,
                mvp@,
                invmod@,
                gw,
                gh,
                m as int,
            ),
        decreases nm - m,
    {
        proof {
            assert(model.meshes@[m as int].wf());
            assert(model.meshes@[m as int].material_idx < model.mats@.len());
        }
        let ghost accm: (Seq<u32>, Seq<u32>) = (fb@, depth_buffer@);
        let mesh: &Mesh = &model.meshes[m];
        let ntri: usize = mesh.indices.len() / 3;
        let mut t: usize = 0;
        while t < ntri
            invariant
                t <= ntri,
                m < nm,
                ntri == mesh.indices@.len() / 3,
                mesh == &model.meshes@[m as int],
                fb.wf(),
                depth_buffer.wf(),
                fb.spec_width() == gw,
                fb.spec_height() == gh,
                depth_buffer.spec_width() == gw,
                depth_buffer.spec_height() == gh,
                forall|i: int, j: int|
                    #![trigger pix(gw, i, j)]
                    0 <= i < gw && 0 <= j < gh ==> depth_buffer@[pix(gw, i, j)] as int <= old(
                        depth_buffer,
                    )@[pix(gw, i, j)] as int,
                forall|i: int, j: int|
                    #![trigger pix(gw, i, j)]
                    0 <= i < gw && 0 <= j < gh ==> (fb@[pix(gw, i, j)] == old(fb)@[pix(
                        gw,
                        i,
                        j,
                    )]) || ((depth_buffer@[pix(gw, i, j)] as int) < (old(depth_buffer)@[pix(
                        gw,
                        i,
                        j,
                    )] as int)),
                accm == model_apply_s(
                    (old(fb)@, old(depth_buffer)@),
                    model.meshes@,
                    model.mats@,
                    mvp@,
                    invmod@,
                    gw,
                    gh,
                    m as int,
                ),
                (fb@, depth_buffer@) == mesh_apply_s(
                    accm,
                    model.meshes@[m as int],
                    mvp@,
                    invmod@,
                    model.mats@[model.meshes@[m as int].material_idx as int],
                    gw,
                    gh,
                    t as int,
                ),
            decreases ntri - t,
        {
            proof {
                assert(mesh.wf());
                assert(mesh.indices@[3 * t as int] < mesh.vertices@.len());
                assert(mesh.indices@[3 * t as int + 1] < mesh.vertices@.len());
                assert(mesh.indices@[3 * t as int + 2] < mesh.vertices@.len());
            }
            let i0: usize = mesh.indices[3 * t] as usize;
            let i1: usize = mesh.indices[3 * t + 1] as usize;
            let i2: usize = mesh.indices[3 * t + 2] as usize;
            let ghost dmid = depth_buffer@;
            let ghost fmid = fb@;
            let ghost gv0 = mesh.vertices@[i0 as int];
            let ghost gv1 = mesh.vertices@[i1 as int];
            let ghost gv2 = mesh.vertices@[i2 as int];
            let ghost gmat = model.mats@[mesh.material_idx as int];
            draw_triangle(
                fb,
                depth_buffer,
                &mesh.vertices[i0],
                &mesh.vertices[i1],
                &mesh.vertices[i2],
                mvp,
                invmod,
                &model.mats[mesh.material_idx],
            );
            proof {
                assert forall|i: int, j: int|
                    #![trigger pix(gw, i, j)]
                    0 <= i < gw && 0 <= j < gh implies (depth_buffer@[pix(gw, i, j)] as int) <= (
                dmid[pix(gw, i, j)] as int) && ((fb@[pix(gw, i, j)] == fmid[pix(gw, i, j)]) || ((
                depth_buffer@[pix(gw, i, j)] as int) < (dmid[pix(gw, i, j)] as int))) by {
                    lemma_shade_z_range(gv0, gv1, gv2, mvp@, invmod@, gmat, gw, gh, i, j);
                }
            }
            t = t + 1;
        }
        m = m + 1;
    }
}

} // verus!
