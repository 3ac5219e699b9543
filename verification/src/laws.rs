//! Properties that hold across the library's functions, stated and
//! proved against the same spec mirrors the functions' own contracts
//! use.

use vstd::prelude::*;

verus! {

use crate::fixed::{FX_ONE, FX_MAX, fx_trunc_s, fx_mul_s, fx_sub_s, fx_div_s, fx_sin_s, fx_cos_s,
    tdiv};
use crate::matrix::{at, elim_row_s, matmul_s, rot_mat_s};
use crate::matrix::{det_s, id_mat_s, mul_cell_s, proj_mat_s, pt_row_s, swap_rows_s, elim_below_s, gauss_s, diag_prod_s};
use crate::model::{Vertex, Material};
use crate::draw::{ndc_s, proj4_s, rec_s, clip_s, pix, shade_s, shade_z_of, shade_col_of,
    tri_writes_s, lemma_shade_z_range};

/// Eliminating against a row whose entry in the pivot column is
/// already zero changes nothing: the factor is zero, so every cell
/// keeps its value.
proof fn lemma_elim_step_noop(m: Seq<Seq<i64>>, i: int, j: int)
    requires
        0 <= i < m.len(),
        0 <= j < m.len(),
        at(m, j, i) == 0,
        forall|k: int| 0 <= k < m[j].len() ==> -FX_MAX <= #[trigger] m[j][k] <= FX_MAX,
    ensures
        m.update(j, elim_row_s(m[j], m[i], fx_div_s(at(m, j, i), at(m, i, i)), i)) =~~= m,
{
    assert(fx_div_s(0, at(m, i, i)) == 0);
    assert forall|k: int| 0 <= k < m[j].len() implies elim_row_s(m[j], m[i], 0, i)[k]
        == m[j][k] by {
        assert((m[i][k] as int) * 0 == 0);
        assert(fx_mul_s(m[i][k] as int, 0) == 0);
        assert(fx_sub_s(m[j][k] as int, 0) == m[j][k] as int);
    }
    assert(elim_row_s(m[j], m[i], fx_div_s(at(m, j, i), at(m, i, i)), i) =~= m[j]);
}

/// The determinant of the identity transform is exactly one: the pivot
/// search keeps every row in place, elimination subtracts only zeros,
/// and the diagonal product is one with no sign flips.
#[verifier::rlimit(100)]
pub proof fn lemma_det_identity()
    ensures
        det_s(id_mat_s()) == FX_ONE as int,
{
    reveal_with_fuel(crate::matrix::argmax_s, 8);
    reveal_with_fuel(crate::matrix::elim_below_s, 8);
    reveal_with_fuel(crate::matrix::gauss_s, 8);
    reveal_with_fuel(crate::matrix::diag_prod_s, 8);
    reveal_with_fuel(crate::matrix::mul_cell_s, 8);
    let m = id_mat_s();
    assert(swap_rows_s(m, 0, 0) =~~= m);
    lemma_elim_step_noop(m, 0, 1);
    lemma_elim_step_noop(m, 0, 2);
    lemma_elim_step_noop(m, 0, 3);
    assert(elim_below_s(m, 0, 1) =~~= m);
    assert(gauss_s(m, 0, 0) == gauss_s(m, 1, 0));
    assert(swap_rows_s(m, 1, 1) =~~= m);
    lemma_elim_step_noop(m, 1, 2);
    lemma_elim_step_noop(m, 1, 3);
    assert(elim_below_s(m, 1, 2) =~~= m);
    assert(gauss_s(m, 1, 0) == gauss_s(m, 2, 0));
    assert(swap_rows_s(m, 2, 2) =~~= m);
    lemma_elim_step_noop(m, 2, 3);
    assert(elim_below_s(m, 2, 3) =~~= m);
    assert(gauss_s(m, 2, 0) == gauss_s(m, 3, 0));
    assert(swap_rows_s(m, 3, 3) =~~= m);
    assert(elim_below_s(m, 3, 4) =~~= m);
    assert(gauss_s(m, 3, 0) == (m, 0int));
    assert(diag_prod_s(m, 4) == FX_ONE as int);
    assert(det_s(m) == fx_div_s(FX_ONE as int, FX_ONE as int));
    assert(fx_div_s(FX_ONE as int, FX_ONE as int) == FX_ONE as int);
}

/// Rotation by zero Euler angles is exactly the identity: the sine
/// and cosine are exact at the quarter-turn points, so the zero
/// rotation block is the identity matrix and composing with it
/// returns every cell unchanged.
#[verifier::rlimit(100)]
pub proof fn lemma_rotate_zero_is_identity(m: Seq<Seq<i64>>, c: int)
    requires
        m.len() == 4,
        c >= 1,
        forall|i: int| 0 <= i < 4 ==> (#[trigger] m[i]).len() == c,
        forall|i: int, j: int| 0 <= i < 4 && 0 <= j < c ==> -FX_MAX <= #[trigger] m[i][j],
    ensures
        matmul_s(m, rot_mat_s(0, 0, 0)) == m,
{
    assert(fx_sin_s(0) == 0);
    assert(102943int % 411774 == 102943) by (nonlinear_arith);
    assert(fx_cos_s(0) == FX_ONE as int);
    assert(fx_mul_s(FX_ONE as int, FX_ONE as int) == FX_ONE as int && fx_mul_s(0, FX_ONE as int)
        == 0 && fx_mul_s(FX_ONE as int, 0) == 0 && fx_mul_s(0, 0) == 0) by (nonlinear_arith);
    let r = rot_mat_s(0, 0, 0);
    assert(r =~~= id_mat_s());
    let p = matmul_s(m, r);
    reveal_with_fuel(mul_cell_s, 5);
    assert forall|i: int| 0 <= i < 4 implies p[i] =~= m[i] by {
        assert(p[i].len() == c);
        assert forall|j: int| 0 <= j < c implies p[i][j] == m[i][j] by {
            if i == 0 {
                assert(at(r, 0, 0) == FX_ONE as int && at(r, 0, 1) == 0 && at(r, 0, 2) == 0
                    && at(r, 0, 3) == 0);
            } else if i == 1 {
                assert(at(r, 1, 0) == 0 && at(r, 1, 1) == FX_ONE as int && at(r, 1, 2) == 0
                    && at(r, 1, 3) == 0);
            } else if i == 2 {
                assert(at(r, 2, 0) == 0 && at(r, 2, 1) == 0 && at(r, 2, 2) == FX_ONE as int
                    && at(r, 2, 3) == 0);
            } else {
                assert(at(r, 3, 0) == 0 && at(r, 3, 1) == 0 && at(r, 3, 2) == 0 && at(r, 3, 3)
                    == FX_ONE as int);
            }
            assert forall|k: int| 0 <= k < 4 implies fx_mul_s(at(r, i, k), at(m, k, j)) == (
            if k == i {
                m[i][j] as int
            } else {
                0
            }) by {
                if k == i {
                    assert(tdiv(65536 * (m[i][j] as int), 65536) == m[i][j] as int)
                        by (nonlinear_arith);
                } else {
                    assert(0 * at(m, k, j) == 0);
                    assert(fx_mul_s(0, at(m, k, j)) == 0);
                }
            }
            assert(mul_cell_s(m, r, i, j, 4) == m[i][j] as int);
        }
    }
    assert(p =~~= m);
}

/// Projecting a point that lies on the view axis through the
/// perspective matrix yields zero for both normalized device
/// coordinates, so the clip-to-screen map lands it on the center
/// pixel column `w / 2` and row `h / 2`, for any symmetric field of
/// view, aspect ratio, depth planes, and grid size.
pub proof fn lemma_center_projection(
    z: int,
    fov: int,
    aspect: int,
    near: int,
    far: int,
    w: int,
    h: int,
)
    requires
        0 <= w <= 0x100000,
        0 <= h <= 0x100000,
    ensures
        ndc_s(proj_mat_s(fov, aspect, near, far), 0, 0, z, 0) == 0,
        ndc_s(proj_mat_s(fov, aspect, near, far), 0, 0, z, 1) == 0,
        fx_trunc_s(
            clip_s(ndc_s(proj_mat_s(fov, aspect, near, far), 0, 0, z, 0), w * (FX_ONE as int)),
        ) == w / 2,
        fx_trunc_s(
            clip_s(ndc_s(proj_mat_s(fov, aspect, near, far), 0, 0, z, 1), h * (FX_ONE as int)),
        ) == h / 2,
{
    let pm = proj_mat_s(fov, aspect, near, far);
    let pt = pt_row_s(0, 0, z);
    reveal_with_fuel(mul_cell_s, 5);
    assert(at(pt, 0, 0) == 0 && at(pt, 0, 1) == 0 && at(pt, 0, 3) == FX_ONE as int);
    assert(at(pm, 1, 0) == 0 && at(pm, 2, 0) == 0 && at(pm, 3, 0) == 0);
    assert(at(pm, 0, 1) == 0 && at(pm, 2, 1) == 0 && at(pm, 3, 1) == 0);
    assert(0 * at(pm, 0, 0) == 0 && 0 * at(pm, 1, 0) == 0 && at(pt, 0, 2) * 0 == 0 && (
    FX_ONE as int) * 0 == 0);
    assert(fx_mul_s(0, at(pm, 0, 0)) == 0 && fx_mul_s(0, at(pm, 1, 0)) == 0 && fx_mul_s(
        at(pt, 0, 2),
        0,
    ) == 0 && fx_mul_s(FX_ONE as int, 0) == 0);
    assert(proj4_s(pm, 0, 0, z, 0) == 0);
    assert(0 * at(pm, 0, 1) == 0 && 0 * at(pm, 1, 1) == 0);
    assert(fx_mul_s(0, at(pm, 0, 1)) == 0 && fx_mul_s(0, at(pm, 1, 1)) == 0);
    assert(proj4_s(pm, 0, 0, z, 1) == 0);
    assert(0 * rec_s(pm, 0, 0, z) == 0);
    assert(fx_mul_s(0, rec_s(pm, 0, 0, z)) == 0);
    assert(ndc_s(pm, 0, 0, z, 0) == 0);
    assert(ndc_s(pm, 0, 0, z, 1) == 0);
    assert(0 * 32768 == 0 && fx_mul_s(0, 32768) == 0);
    assert(clip_s(0, w * (FX_ONE as int)) == fx_mul_s(32768, w * 65536));
    assert(fx_trunc_s(fx_mul_s(32768, w * 65536)) == w / 2) by (nonlinear_arith)
        requires
            0 <= w <= 0x100000,
    ;
    assert(fx_trunc_s(fx_mul_s(32768, h * 65536)) == h / 2) by (nonlinear_arith)
        requires
            0 <= h <= 0x100000,
    ;
}

/// Against a far-cleared depth cell, the rasterizer's write condition
/// is coverage alone: an accepted pixel's depth is at most one, which
/// is strictly below the cleared value, so the depth comparison never
/// rejects and pixel `(i, j)` is written iff the triangle is not
/// discarded, the pixel lies in the clamped bounding box, and the
/// shader accepts it (all three strict edge tests, a nonzero area
/// reciprocal, and the depth range).
pub proof fn lemma_cleared_depth_writes_coverage(
    v0: Vertex,
    v1: Vertex,
    v2: Vertex,
    mvp: Seq<Seq<i64>>,
    invmod: Seq<Seq<i64>>,
    mat: Material,
    w: int,
    h: int,
    dold: Seq<u32>,
    i: int,
    j: int,
)
    requires
        dold[pix(w, i, j)] == u32::MAX,
    ensures
        tri_writes_s(v0, v1, v2, mvp, invmod, mat, w, h, dold, i, j) <==> {
            &&& !crate::draw::discard_s(mvp, v0, v1, v2)
            &&& crate::draw::xs_s(mvp, v0, v1, v2, w) <= i < crate::draw::xl_s(mvp, v0, v1, v2, w)
            &&& crate::draw::ys_s(mvp, v0, v1, v2, h) <= j < crate::draw::yl_s(mvp, v0, v1, v2, h)
            &&& shade_s(v0, v1, v2, mvp, invmod, mat, w, h, i, j) is Some
        },
{
    lemma_shade_z_range(v0, v1, v2, mvp, invmod, mat, w, h, i, j);
}

/// Depth-test idempotence: rasterizing the same triangle twice with
/// identical inputs leaves both buffers unchanged after the second
/// pass. The first pass stores each accepted pixel's exact depth, so
/// on the second pass no pixel is strictly closer than what is stored.
///
/// The two passes are given by the rasterizer's own contract: `fb1`
/// and `db1` relate to `fb0` and `db0` as `draw_triangle` leaves them,
/// and `fb2` and `db2` relate to `fb1` and `db1` the same way.
pub proof fn lemma_depth_idempotent(
    v0: Vertex,
    v1: Vertex,
    v2: Vertex,
    mvp: Seq<Seq<i64>>,
    invmod: Seq<Seq<i64>>,
    mat: Material,
    w: int,
    h: int,
    fb0: Seq<u32>,
    db0: Seq<u32>,
    fb1: Seq<u32>,
    db1: Seq<u32>,
    fb2: Seq<u32>,
    db2: Seq<u32>,
)
    requires
        forall|i: int, j: int|
            #![trigger pix(w, i, j)]
            0 <= i < w && 0 <= j < h ==> {
                let wr = tri_writes_s(v0, v1, v2, mvp, invmod, mat, w, h, db0, i, j);
                let o = shade_s(v0, v1, v2, mvp, invmod, mat, w, h, i, j);
                fb1[pix(w, i, j)] == (if wr {
                    shade_col_of(o) as u32
                } else {
                    fb0[pix(w, i, j)]
                }) && db1[pix(w, i, j)] == (if wr {
                    shade_z_of(o) as u32
                } else {
                    db0[pix(w, i, j)]
                })
            },
        forall|i: int, j: int|
            #![trigger pix(w, i, j)]
            0 <= i < w && 0 <= j < h ==> {
                let wr = tri_writes_s(v0, v1, v2, mvp, invmod, mat, w, h, db1, i, j);
                let o = shade_s(v0, v1, v2, mvp, invmod, mat, w, h, i, j);
                fb2[pix(w, i, j)] == (if wr {
                    shade_col_of(o) as u32
                } else {
                    fb1[pix(w, i, j)]
                }) && db2[pix(w, i, j)] == (if wr {
                    shade_z_of(o) as u32
                } else {
                    db1[pix(w, i, j)]
                })
            },
    ensures
        forall|i: int, j: int|
            #![trigger pix(w, i, j)]
            0 <= i < w && 0 <= j < h ==> fb2[pix(w, i, j)] == fb1[pix(w, i, j)] && db2[pix(
                w,
                i,
                j,
            )] == db1[pix(w, i, j)],
{
    assert forall|i: int, j: int|
        #![trigger pix(w, i, j)]
        0 <= i < w && 0 <= j < h implies fb2[pix(w, i, j)] == fb1[pix(w, i, j)] && db2[pix(
        w,
        i,
        j,
    )] == db1[pix(w, i, j)] by {
        lemma_shade_z_range(v0, v1, v2, mvp, invmod, mat, w, h, i, j);
        let wr1 = tri_writes_s(v0, v1, v2, mvp, invmod, mat, w, h, db0, i, j);
        let wr2 = tri_writes_s(v0, v1, v2, mvp, invmod, mat, w, h, db1, i, j);
        let o = shade_s(v0, v1, v2, mvp, invmod, mat, w, h, i, j);
        if wr1 {
            assert(db1[pix(w, i, j)] == shade_z_of(o) as u32);
            assert(!wr2);
        } else {
            assert(db1[pix(w, i, j)] == db0[pix(w, i, j)]);
            assert(wr2 == wr1);
        }
    }
}

} // verus!
