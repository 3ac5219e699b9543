//! Dense fixed-point matrices in the row-vector convention of this
//! pipeline: a point is a single-row matrix, and `a.mul(&b)` computes
//! `res[i][j] = sum_k b[i][k] * a[k][j]`, so transforms compose left to
//! right. Every cell of every result is pinned exactly by a spec-level
//! mirror of the arithmetic.

use vstd::prelude::*;

verus! {

use crate::fixed::{
    FX_ONE, fx_add, fx_add_s, fx_sub, fx_sub_s, fx_mul, fx_mul_s, fx_div, fx_div_s, fx_neg,
    fx_neg_s, fx_sin, fx_sin_s, fx_cos, fx_cos_s, FX_HALF_PI, sabs, mag,
};

pub struct Matrix {
    pub rows: Vec<Vec<i64>>,
}

impl View for Matrix {
    type V = Seq<Seq<i64>>;

    open spec fn view(&self) -> Seq<Seq<i64>> {
        self.rows@.map_values(|r: Vec<i64>| r@)
    }
}

/// Cell `(i, j)` as a mathematical integer.
pub open spec fn at(m: Seq<Seq<i64>>, i: int, j: int) -> int {
    m[i][j] as int
}

/// `m` is an `r` by `c` grid.
pub open spec fn grid(m: Seq<Seq<i64>>, r: int, c: int) -> bool {
    m.len() == r && forall|i: int| 0 <= i < r ==> (#[trigger] m[i]).len() == c
}

/// The fixed-point dot product of row `i` of `rm` with column `j` of
/// `sm`, accumulated over the first `n` terms in index order, exactly as
/// the multiply loop computes it.
pub open spec fn mul_cell_s(sm: Seq<Seq<i64>>, rm: Seq<Seq<i64>>, i: int, j: int, n: int) -> int
    decreases n,
{
    if n <= 0 {
        0
    } else {
        fx_add_s(mul_cell_s(sm, rm, i, j, n - 1), fx_mul_s(at(rm, i, n - 1), at(sm, n - 1, j)))
    }
}

/// The whole product in the pipeline's convention, as one grid:
/// `matmul_s(sm, rm)[i][j] = sum_k rm[i][k] * sm[k][j]`.
pub open spec fn matmul_s(sm: Seq<Seq<i64>>, rm: Seq<Seq<i64>>) -> Seq<Seq<i64>> {
    Seq::new(
        rm.len(),
        |i: int| Seq::new(sm[0].len(), |j: int| mul_cell_s(sm, rm, i, j, rm[0].len() as int) as i64),
    )
}

/// The four-by-four identity.
pub open spec fn id_mat_s() -> Seq<Seq<i64>> {
    seq![
        seq![FX_ONE, 0i64, 0i64, 0i64],
        seq![0i64, FX_ONE, 0i64, 0i64],
        seq![0i64, 0i64, FX_ONE, 0i64],
        seq![0i64, 0i64, 0i64, FX_ONE],
    ]
}

/// The translation matrix with `offset` in the last row.
pub open spec fn trans_mat_s(x: int, y: int, z: int) -> Seq<Seq<i64>> {
    seq![
        seq![FX_ONE, 0i64, 0i64, 0i64],
        seq![0i64, FX_ONE, 0i64, 0i64],
        seq![0i64, 0i64, FX_ONE, 0i64],
        seq![x as i64, y as i64, z as i64, FX_ONE],
    ]
}

/// The axis-aligned scaling matrix.
pub open spec fn scaling_mat_s(x: int, y: int, z: int) -> Seq<Seq<i64>> {
    seq![
        seq![x as i64, 0i64, 0i64, 0i64],
        seq![0i64, y as i64, 0i64, 0i64],
        seq![0i64, 0i64, z as i64, 0i64],
        seq![0i64, 0i64, 0i64, FX_ONE],
    ]
}

/// The transpose of the leading `n` by `n` block.
pub open spec fn transpose_s(m: Seq<Seq<i64>>, n: int) -> Seq<Seq<i64>> {
    Seq::new(n as nat, |i: int| Seq::new(n as nat, |j: int| m[j][i]))
}

/// The homogeneous single-row matrix `[x, y, z, 1]`.
pub open spec fn pt_row_s(x: int, y: int, z: int) -> Seq<Seq<i64>> {
    seq![seq![x as i64, y as i64, z as i64, FX_ONE]]
}

/// The rotation matrix built from Euler angles: pitch about x, yaw about
/// y, roll about z, combined into one 3x3 block inside a 4x4.
pub open spec fn rot_mat_s(rx: int, ry: int, rz: int) -> Seq<Seq<i64>> {
    let sina = fx_sin_s(rx);
    let cosa = fx_cos_s(rx);
    let sinb = fx_sin_s(ry);
    let cosb = fx_cos_s(ry);
    let sinc = fx_sin_s(rz);
    let cosc = fx_cos_s(rz);
    seq![
        seq![
            fx_mul_s(cosb, cosc) as i64,
            fx_sub_s(fx_mul_s(fx_mul_s(sina, sinb), cosc), fx_mul_s(cosa, sinc)) as i64,
            fx_add_s(fx_mul_s(fx_mul_s(cosa, sinb), cosc), fx_mul_s(sina, sinc)) as i64,
            0i64,
        ],
        seq![
            fx_mul_s(cosb, sinc) as i64,
            fx_add_s(fx_mul_s(fx_mul_s(sina, sinb), sinc), fx_mul_s(cosa, cosc)) as i64,
            fx_sub_s(fx_mul_s(fx_mul_s(cosa, sinb), sinc), fx_mul_s(sina, cosc)) as i64,
            0i64,
        ],
        seq![fx_neg_s(sinb) as i64, fx_mul_s(sina, cosb) as i64, fx_mul_s(cosa, cosb) as i64, 0i64],
        seq![0i64, 0i64, 0i64, FX_ONE],
    ]
}

/// The perspective projection matrix from a vertical field of view,
/// aspect ratio, and near and far planes.
pub open spec fn proj_mat_s(fov_y: int, aspect: int, near: int, far: int) -> Seq<Seq<i64>> {
    let half = fx_div_s(fov_y, 2 * (FX_ONE as int));
    let t = fx_div_s(fx_sin_s(half), fx_cos_s(half));
    let f = fx_div_s(FX_ONE as int, t);
    let nf = fx_div_s(FX_ONE as int, fx_sub_s(near, far));
    seq![
        seq![fx_div_s(f, aspect) as i64, 0i64, 0i64, 0i64],
        seq![0i64, f as i64, 0i64, 0i64],
        seq![0i64, 0i64, fx_mul_s(fx_add_s(far, near), nf) as i64, (-FX_ONE) as i64],
        seq![0i64, 0i64, fx_mul_s(fx_mul_s(fx_add_s(far, far), near), nf) as i64, 0i64],
    ]
}

/// The row with the largest absolute value in column `col`, scanning
/// rows `j` and beyond with current best `best`, exactly as the pivot
/// search scans.
pub open spec fn argmax_s(m: Seq<Seq<i64>>, col: int, best: int, j: int) -> int
    decreases m.len() - j,
{
    if j >= m.len() || j < 0 {
        best
    } else {
        argmax_s(
            m,
            col,
            if sabs(at(m, j, col)) > sabs(at(m, best, col)) {
                j
            } else {
                best
            },
            j + 1,
        )
    }
}

/// Rows `i` and `p` exchanged.
pub open spec fn swap_rows_s(m: Seq<Seq<i64>>, i: int, p: int) -> Seq<Seq<i64>> {
    m.update(i, m[p]).update(p, m[i])
}

/// One eliminated row: from column `from` onward, `row - prow * a`.
pub open spec fn elim_row_s(row: Seq<i64>, prow: Seq<i64>, a: int, from: int) -> Seq<i64> {
    Seq::new(
        row.len(),
        |k: int|
            if k < from {
                row[k]
            } else {
                fx_sub_s(row[k] as int, fx_mul_s(prow[k] as int, a)) as i64
            },
    )
}

/// Eliminate column `i` from every row at or below `j`, each with its
/// own factor `m[j][i] / m[i][i]`.
pub open spec fn elim_below_s(m: Seq<Seq<i64>>, i: int, j: int) -> Seq<Seq<i64>>
    decreases m.len() - j,
{
    if j >= m.len() || j < 0 {
        m
    } else {
        elim_below_s(
            m.update(j, elim_row_s(m[j], m[i], fx_div_s(at(m, j, i), at(m, i, i)), i)),
            i,
            j + 1,
        )
    }
}

/// Gaussian elimination with partial pivoting from column `i` on:
/// pick the largest pivot, swap it up (counting the swap), stop at an
/// exactly-zero pivot, else eliminate below and recurse.
pub open spec fn gauss_s(m: Seq<Seq<i64>>, i: int, swaps: int) -> (Seq<Seq<i64>>, int)
    decreases m.len() - i,
    via gauss_s_dec
{
    if i >= m.len() || i < 0 {
        (m, swaps)
    } else {
        let p = argmax_s(m, i, i, i + 1);
        let sw: int = if p != i {
            swaps + 1
        } else {
            swaps
        };
        let m1 = swap_rows_s(m, i, p);
        if at(m1, i, i) == 0 {
            (m1, sw)
        } else {
            gauss_s(elim_below_s(m1, i, i + 1), i + 1, sw)
        }
    }
}

/// The pivot search returns a row index in range.
pub proof fn lemma_argmax_range(m: Seq<Seq<i64>>, col: int, best: int, j: int)
    requires
        0 <= best < m.len(),
    ensures
        0 <= argmax_s(m, col, best, j) < m.len(),
    decreases m.len() - j,
{
    if !(j >= m.len() || j < 0) {
        lemma_argmax_range(
            m,
            col,
            if sabs(at(m, j, col)) > sabs(at(m, best, col)) {
                j
            } else {
                best
            },
            j + 1,
        );
    }
}

proof fn lemma_elim_below_len(m: Seq<Seq<i64>>, i: int, j: int)
    ensures
        elim_below_s(m, i, j).len() == m.len(),
    decreases m.len() - j,
{
    if !(j >= m.len() || j < 0) {
        lemma_elim_below_len(
            m.update(j, elim_row_s(m[j], m[i], fx_div_s(at(m, j, i), at(m, i, i)), i)),
            i,
            j + 1,
        );
    }
}

#[via_fn]
proof fn gauss_s_dec(m: Seq<Seq<i64>>, i: int, swaps: int) {
    if !(i >= m.len() || i < 0) {
        let p = argmax_s(m, i, i, i + 1);
        lemma_argmax_range(m, i, i, i + 1);
        let m1 = swap_rows_s(m, i, p);
        lemma_elim_below_len(m1, i, i + 1);
        assert(m1.len() == m.len());
        assert(elim_below_s(m1, i, i + 1).len() == m.len());
    }
}

/// The running product of the first `k` diagonal entries.
pub open spec fn diag_prod_s(m: Seq<Seq<i64>>, k: int) -> int
    decreases k,
{
    if k <= 0 {
        FX_ONE as int
    } else {
        fx_mul_s(diag_prod_s(m, k - 1), at(m, k - 1, k - 1))
    }
}

/// The determinant: product of the diagonal of the eliminated matrix,
/// sign flipped once per row swap.
pub open spec fn det_s(m: Seq<Seq<i64>>) -> int {
    let r = gauss_s(m, 0, 0);
    fx_div_s(
        diag_prod_s(r.0, m.len() as int),
        if r.1 % 2 == 0 {
            FX_ONE as int
        } else {
            -(FX_ONE as int)
        },
    )
}

/// `m` with an identity block of the same size appended to the right
/// of every row.
pub open spec fn aug_s(m: Seq<Seq<i64>>) -> Seq<Seq<i64>> {
    Seq::new(
        m.len(),
        |i: int|
            m[i] + Seq::new(
                m.len(),
                |j: int|
                    if j == i {
                        FX_ONE
                    } else {
                        0i64
                    },
            ),
    )
}

/// A row with every entry divided by the pivot.
pub open spec fn norm_row_s(row: Seq<i64>, pivot: int) -> Seq<i64> {
    Seq::new(row.len(), |k: int| fx_div_s(row[k] as int, pivot) as i64)
}

/// A whole row eliminated against the pivot row with factor `f`.
pub open spec fn elim_full_row_s(row: Seq<i64>, prow: Seq<i64>, f: int) -> Seq<i64> {
    Seq::new(row.len(), |k: int| fx_sub_s(row[k] as int, fx_mul_s(prow[k] as int, f)) as i64)
}

/// Eliminate column `i` from every row except the pivot row itself,
/// from row `j` on.
pub open spec fn elim_others_s(m: Seq<Seq<i64>>, i: int, j: int) -> Seq<Seq<i64>>
    decreases m.len() - j,
{
    if j >= m.len() || j < 0 {
        m
    } else {
        let m2 = if j == i {
            m
        } else {
            m.update(j, elim_full_row_s(m[j], m[i], at(m, j, i)))
        };
        elim_others_s(m2, i, j + 1)
    }
}

proof fn lemma_elim_others_len(m: Seq<Seq<i64>>, i: int, j: int)
    ensures
        elim_others_s(m, i, j).len() == m.len(),
    decreases m.len() - j,
{
    if !(j >= m.len() || j < 0) {
        let m2 = if j == i {
            m
        } else {
            m.update(j, elim_full_row_s(m[j], m[i], at(m, j, i)))
        };
        lemma_elim_others_len(m2, i, j + 1);
    }
}

/// Gauss-Jordan elimination from column `i` on: pivot, swap, stop at an
/// exactly-zero pivot (returning the partial augmented matrix),
/// otherwise normalize the pivot row and eliminate the column from all
/// other rows.
pub open spec fn gj_s(m: Seq<Seq<i64>>, i: int) -> Seq<Seq<i64>>
    decreases m.len() - i,
    via gj_s_dec
{
    if i >= m.len() || i < 0 {
        m
    } else {
        let p = argmax_s(m, i, i, i + 1);
        let m1 = swap_rows_s(m, i, p);
        if at(m1, i, i) == 0 {
            m1
        } else {
            let m2 = m1.update(i, norm_row_s(m1[i], at(m1, i, i)));
            gj_s(elim_others_s(m2, i, 0), i + 1)
        }
    }
}

/// Whether Gauss-Jordan elimination runs to completion without meeting
/// an exactly-zero pivot.
pub open spec fn gj_ok_s(m: Seq<Seq<i64>>, i: int) -> bool
    decreases m.len() - i,
    via gj_ok_s_dec
{
    if i >= m.len() || i < 0 {
        true
    } else {
        let p = argmax_s(m, i, i, i + 1);
        let m1 = swap_rows_s(m, i, p);
        if at(m1, i, i) == 0 {
            false
        } else {
            let m2 = m1.update(i, norm_row_s(m1[i], at(m1, i, i)));
            gj_ok_s(elim_others_s(m2, i, 0), i + 1)
        }
    }
}

#[via_fn]
proof fn gj_s_dec(m: Seq<Seq<i64>>, i: int) {
    if !(i >= m.len() || i < 0) {
        let p = argmax_s(m, i, i, i + 1);
        lemma_argmax_range(m, i, i, i + 1);
        let m1 = swap_rows_s(m, i, p);
        if at(m1, i, i) != 0 {
            let m2 = m1.update(i, norm_row_s(m1[i], at(m1, i, i)));
            lemma_elim_others_len(m2, i, 0);
        }
    }
}

#[via_fn]
proof fn gj_ok_s_dec(m: Seq<Seq<i64>>, i: int) {
    if !(i >= m.len() || i < 0) {
        let p = argmax_s(m, i, i, i + 1);
        lemma_argmax_range(m, i, i, i + 1);
        let m1 = swap_rows_s(m, i, p);
        if at(m1, i, i) != 0 {
            let m2 = m1.update(i, norm_row_s(m1[i], at(m1, i, i)));
            lemma_elim_others_len(m2, i, 0);
        }
    }
}

/// The right half of an augmented matrix: columns `n` to `2n` of the
/// first `n` rows.
pub open spec fn right_half_s(g: Seq<Seq<i64>>, n: int) -> Seq<Seq<i64>> {
    Seq::new(n as nat, |i: int| g[i].subrange(n, 2 * n))
}

/// The inverse by Gauss-Jordan elimination on `[m | I]`: the right half
/// when elimination completes; when a pivot is exactly zero the matrix
/// is treated as singular and the partial augmented matrix itself comes
/// back, as callers of this pipeline expect.
pub open spec fn inverse_s(m: Seq<Seq<i64>>) -> Seq<Seq<i64>> {
    if gj_ok_s(aug_s(m), 0) {
        right_half_s(gj_s(aug_s(m), 0), m.len() as int)
    } else {
        gj_s(aug_s(m), 0)
    }
}

fn copy_row(src: &Vec<i64>) -> (out: Vec<i64>)
    ensures
        out@ =~= src@,
{
    let n: usize = src.len();
    let mut out: Vec<i64> = Vec::new();
    let mut k: usize = 0;
    while k < n
        invariant
            k <= n,
            n == src@.len(),
            out@ =~= src@.subrange(0, k as int),
        decreases n - k,
    {
        out.push(src[k]);
        k = k + 1;
    }
    out
}

fn row4(a: i64, b: i64, c: i64, d: i64) -> (v: Vec<i64>)
    ensures
        v@ =~= seq![a, b, c, d],
{
    let mut v: Vec<i64> = Vec::new();
    v.push(a);
    v.push(b);
    v.push(c);
    v.push(d);
    v
}

impl Matrix {
    /// The view of row `i` is the view of the backing vector's row `i`.
    pub proof fn lemma_view_row(&self, i: int)
        requires
            0 <= i < self@.len(),
        ensures
            self@[i] == self.rows@[i]@,
    {
    }

    pub open spec fn nrows(&self) -> int {
        self@.len() as int
    }

    pub open spec fn ncols(&self) -> int {
        if self@.len() > 0 {
            self@[0].len() as int
        } else {
            0
        }
    }

    /// Every row has the same length.
    pub open spec fn wf(&self) -> bool {
        forall|i: int| 0 <= i < self.nrows() ==> (#[trigger] self@[i]).len() == self.ncols()
    }

    /// The identity transform.
    pub fn identity() -> (m: Matrix)
        ensures
            m.wf(),
            m.nrows() == 4,
            m.ncols() == 4,
            forall|i: int, j: int|
                0 <= i < 4 && 0 <= j < 4 ==> at(m@, i, j) == if i == j {
                    FX_ONE as int
                } else {
                    0
                },
            m@ == id_mat_s(),
    {
        let mut rows: Vec<Vec<i64>> = Vec::new();
        rows.push(row4(FX_ONE, 0, 0, 0));
        rows.push(row4(0, FX_ONE, 0, 0));
        rows.push(row4(0, 0, FX_ONE, 0));
        rows.push(row4(0, 0, 0, FX_ONE));
        let m: Matrix = Matrix { rows };
        proof {
            assert(m@ =~~= id_mat_s());
        }
        m
    }

    /// The translation by `offset`, in the last row as the row-vector
    /// convention wants it.
    pub fn trans(offset: [i64; 3]) -> (m: Matrix)
        ensures
            m.wf(),
            m.nrows() == 4,
            m.ncols() == 4,
            forall|i: int, j: int|
                0 <= i < 3 && 0 <= j < 4 ==> at(m@, i, j) == if i == j {
                    FX_ONE as int
                } else {
                    0
                },
            at(m@, 3, 0) == offset[0] as int,
            at(m@, 3, 1) == offset[1] as int,
            at(m@, 3, 2) == offset[2] as int,
            at(m@, 3, 3) == FX_ONE as int,
            m@ == trans_mat_s(offset[0] as int, offset[1] as int, offset[2] as int),
    {
        let mut rows: Vec<Vec<i64>> = Vec::new();
        rows.push(row4(FX_ONE, 0, 0, 0));
        rows.push(row4(0, FX_ONE, 0, 0));
        rows.push(row4(0, 0, FX_ONE, 0));
        rows.push(row4(offset[0], offset[1], offset[2], FX_ONE));
        let m: Matrix = Matrix { rows };
        proof {
            assert(m@ =~~= trans_mat_s(offset[0] as int, offset[1] as int, offset[2] as int));
        }
        m
    }

    /// The axis-aligned scaling by `factors` on the diagonal.
    pub fn scaling(factors: [i64; 3]) -> (m: Matrix)
        ensures
            m.wf(),
            m.nrows() == 4,
            m.ncols() == 4,
            forall|i: int, j: int|
                0 <= i < 4 && 0 <= j < 4 && i != j ==> at(m@, i, j) == 0,
            at(m@, 0, 0) == factors[0] as int,
            at(m@, 1, 1) == factors[1] as int,
            at(m@, 2, 2) == factors[2] as int,
            at(m@, 3, 3) == FX_ONE as int,
            m@ == scaling_mat_s(factors[0] as int, factors[1] as int, factors[2] as int),
    {
        let mut rows: Vec<Vec<i64>> = Vec::new();
        rows.push(row4(factors[0], 0, 0, 0));
        rows.push(row4(0, factors[1], 0, 0));
        rows.push(row4(0, 0, factors[2], 0));
        rows.push(row4(0, 0, 0, FX_ONE));
        let m: Matrix = Matrix { rows };
        proof {
            assert(m@ =~~= scaling_mat_s(factors[0] as int, factors[1] as int, factors[2] as int));
        }
        m
    }

    /// Matrix product in the pipeline's convention:
    /// `res[i][j] = sum_k rhs[i][k] * self[k][j]`.
    pub fn mul(&self, rhs: &Matrix) -> (res: Matrix)
        requires
            self.wf(),
            rhs.wf(),
            self.nrows() >= 1,
            rhs.nrows() >= 1,
            rhs.ncols() == self.nrows(),
        ensures
            res.wf(),
            res.nrows() == rhs.nrows(),
            res.ncols() == self.ncols(),
            forall|i: int, j: int|
                0 <= i < rhs.nrows() && 0 <= j < self.ncols() ==> at(res@, i, j) == mul_cell_s(
                    self@,
                    rhs@,
                    i,
                    j,
                    rhs.ncols(),
                ),
            res@ == matmul_s(self@, rhs@),
    {
        let n: usize = rhs.rows.len();
        let cols: usize = self.rows[0].len();
        let kk: usize = rhs.rows[0].len();
        let mut out: Vec<Vec<i64>> = Vec::new();
        let mut i: usize = 0;
        while i < n
            invariant
                i <= n,
                self.wf(),
                rhs.wf(),
                n == rhs.nrows(),
                cols == self.ncols(),
                kk == rhs.ncols(),
                kk == self.nrows(),
                out@.len() == i,
                forall|a: int| 0 <= a < i ==> (#[trigger] out@[a]).len() == cols,
                forall|a: int, b: int|
                    0 <= a < i && 0 <= b < cols ==> out@[a]@[b] as int == mul_cell_s(
                        self@,
                        rhs@,
                        a,
                        b,
                        kk as int,
                    ),
            decreases n - i,
        {
            let mut row: Vec<i64> = Vec::new();
            let mut j: usize = 0;
            while j < cols
                invariant
                    j <= cols,
                    i < n,
                    self.wf(),
                    rhs.wf(),
                    n == rhs.nrows(),
                    cols == self.ncols(),
                    kk == rhs.ncols(),
                    kk == self.nrows(),
                    row@.len() == j,
                    forall|b: int|
                        0 <= b < j ==> row@[b] as int == mul_cell_s(self@, rhs@, i as int, b, kk as int),
                decreases cols - j,
            {
                let mut acc: i64 = 0;
                let mut k: usize = 0;
                while k < kk
                    invariant
                        k <= kk,
                        i < n,
                        j < cols,
                        self.wf(),
                        rhs.wf(),
                        n == rhs.nrows(),
                        cols == self.ncols(),
                        kk == rhs.ncols(),
                        kk == self.nrows(),
                        acc as int == mul_cell_s(self@, rhs@, i as int, j as int, k as int),
                    decreases kk - k,
                {
                    proof {
                        rhs.lemma_view_row(i as int);
                        self.lemma_view_row(k as int);
                    }
                    let term: i64 = fx_mul(rhs.rows[i][k], self.rows[k][j]);
                    acc = fx_add(acc, term);
                    k = k + 1;
                }
                row.push(acc);
                j = j + 1;
            }
            out.push(row);
            i = i + 1;
        }
        let res: Matrix = Matrix { rows: out };
        proof {
            assert(res@ =~~= matmul_s(self@, rhs@));
        }
        res
    }

    /// Elementwise sum; both operands must have the same shape.
    pub fn add(&self, rhs: &Matrix) -> (res: Matrix)
        requires
            self.wf(),
            rhs.wf(),
            rhs.nrows() == self.nrows(),
            rhs.ncols() == self.ncols(),
        ensures
            res.wf(),
            res.nrows() == self.nrows(),
            res.ncols() == self.ncols(),
            forall|i: int, j: int|
                0 <= i < self.nrows() && 0 <= j < self.ncols() ==> at(res@, i, j) == fx_add_s(
                    at(self@, i, j),
                    at(rhs@, i, j),
                ),
    {
        let n: usize = self.rows.len();
        let mut out: Vec<Vec<i64>> = Vec::new();
        let mut i: usize = 0;
        while i < n
            invariant
                i <= n,
                self.wf(),
                rhs.wf(),
                n == self.nrows(),
                rhs.nrows() == self.nrows(),
                rhs.ncols() == self.ncols(),
                out@.len() == i,
                forall|a: int| 0 <= a < i ==> (#[trigger] out@[a]).len() == self.ncols(),
                forall|a: int, b: int|
                    0 <= a < i && 0 <= b < self.ncols() ==> out@[a]@[b] as int == fx_add_s(
                        at(self@, a, b),
                        at(rhs@, a, b),
                    ),
            decreases n - i,
        {
            proof {
                self.lemma_view_row(i as int);
            }
            let cols: usize = self.rows[i].len();
            let mut row: Vec<i64> = Vec::new();
            let mut j: usize = 0;
            while j < cols
                invariant
                    j <= cols,
                    i < n,
                    self.wf(),
                    rhs.wf(),
                    n == self.nrows(),
                    rhs.nrows() == self.nrows(),
                    rhs.ncols() == self.ncols(),
                    cols == self.ncols(),
                    row@.len() == j,
                    forall|b: int|
                        0 <= b < j ==> row@[b] as int == fx_add_s(
                            at(self@, i as int, b),
                            at(rhs@, i as int, b),
                        ),
                decreases cols - j,
            {
                proof {
                    self.lemma_view_row(i as int);
                    rhs.lemma_view_row(i as int);
                }
                row.push(fx_add(self.rows[i][j], rhs.rows[i][j]));
                j = j + 1;
            }
            out.push(row);
            i = i + 1;
        }
        Matrix { rows: out }
    }

    /// Elementwise difference; both operands must have the same shape.
    pub fn sub(&self, rhs: &Matrix) -> (res: Matrix)
        requires
            self.wf(),
            rhs.wf(),
            rhs.nrows() == self.nrows(),
            rhs.ncols() == self.ncols(),
        ensures
            res.wf(),
            res.nrows() == self.nrows(),
            res.ncols() == self.ncols(),
            forall|i: int, j: int|
                0 <= i < self.nrows() && 0 <= j < self.ncols() ==> at(res@, i, j) == fx_sub_s(
                    at(self@, i, j),
                    at(rhs@, i, j),
                ),
    {
        let n: usize = self.rows.len();
        let mut out: Vec<Vec<i64>> = Vec::new();
        let mut i: usize = 0;
        while i < n
            invariant
                i <= n,
                self.wf(),
                rhs.wf(),
                n == self.nrows(),
                rhs.nrows() == self.nrows(),
                rhs.ncols() == self.ncols(),
                out@.len() == i,
                forall|a: int| 0 <= a < i ==> (#[trigger] out@[a]).len() == self.ncols(),
                forall|a: int, b: int|
                    0 <= a < i && 0 <= b < self.ncols() ==> out@[a]@[b] as int == fx_sub_s(
                        at(self@, a, b),
                        at(rhs@, a, b),
                    ),
            decreases n - i,
        {
            proof {
                self.lemma_view_row(i as int);
            }
            let cols: usize = self.rows[i].len();
            let mut row: Vec<i64> = Vec::new();
            let mut j: usize = 0;
            while j < cols
                invariant
                    j <= cols,
                    i < n,
                    self.wf(),
                    rhs.wf(),
                    n == self.nrows(),
                    rhs.nrows() == self.nrows(),
                    rhs.ncols() == self.ncols(),
                    cols == self.ncols(),
                    row@.len() == j,
                    forall|b: int|
                        0 <= b < j ==> row@[b] as int == fx_sub_s(
                            at(self@, i as int, b),
                            at(rhs@, i as int, b),
                        ),
                decreases cols - j,
            {
                proof {
                    self.lemma_view_row(i as int);
                    rhs.lemma_view_row(i as int);
                }
                row.push(fx_sub(self.rows[i][j], rhs.rows[i][j]));
                j = j + 1;
            }
            out.push(row);
            i = i + 1;
        }
        Matrix { rows: out }
    }

    /// Every cell multiplied by the scalar `s`.
    pub fn scale(&self, s: i64) -> (res: Matrix)
        requires
            self.wf(),
        ensures
            res.wf(),
            res.nrows() == self.nrows(),
            res.ncols() == self.ncols(),
            forall|i: int, j: int|
                0 <= i < self.nrows() && 0 <= j < self.ncols() ==> at(res@, i, j) == fx_mul_s(
                    at(self@, i, j),
                    s as int,
                ),
    {
        let n: usize = self.rows.len();
        let mut out: Vec<Vec<i64>> = Vec::new();
        let mut i: usize = 0;
        while i < n
            invariant
                i <= n,
                self.wf(),
                n == self.nrows(),
                out@.len() == i,
                forall|a: int| 0 <= a < i ==> (#[trigger] out@[a]).len() == self.ncols(),
                forall|a: int, b: int|
                    0 <= a < i && 0 <= b < self.ncols() ==> out@[a]@[b] as int == fx_mul_s(
                        at(self@, a, b),
                        s as int,
                    ),
            decreases n - i,
        {
            proof {
                self.lemma_view_row(i as int);
            }
            let cols: usize = self.rows[i].len();
            let mut row: Vec<i64> = Vec::new();
            let mut j: usize = 0;
            while j < cols
                invariant
                    j <= cols,
                    i < n,
                    self.wf(),
                    n == self.nrows(),
                    cols == self.ncols(),
                    row@.len() == j,
                    forall|b: int|
                        0 <= b < j ==> row@[b] as int == fx_mul_s(at(self@, i as int, b), s as int),
                decreases cols - j,
            {
                proof {
                    self.lemma_view_row(i as int);
                }
                row.push(fx_mul(self.rows[i][j], s));
                j = j + 1;
            }
            out.push(row);
            i = i + 1;
        }
        Matrix { rows: out }
    }

    /// Transpose of the leading square block: entry `(i, j)` of the
    /// result is entry `(j, i)` of `self`, over the first `nrows`
    /// columns (a partially eliminated augmented matrix loses its
    /// right half here, as this pipeline expects).
    pub fn transpose(&self) -> (res: Matrix)
        requires
            self.wf(),
            self.ncols() >= self.nrows(),
        ensures
            res.wf(),
            res.nrows() == self.nrows(),
            res.ncols() == self.nrows(),
            forall|i: int, j: int|
                0 <= i < self.nrows() && 0 <= j < self.nrows() ==> at(res@, i, j) == at(
                    self@,
                    j,
                    i,
                ),
            res@ == transpose_s(self@, self.nrows()),
    {
        let n: usize = self.rows.len();
        let mut out: Vec<Vec<i64>> = Vec::new();
        let mut i: usize = 0;
        while i < n
            invariant
                i <= n,
                self.wf(),
                n == self.nrows(),
                self.ncols() >= self.nrows(),
                out@.len() == i,
                forall|a: int| 0 <= a < i ==> (#[trigger] out@[a])@.len() == n,
                forall|a: int, b: int|
                    0 <= a < i && 0 <= b < n ==> out@[a]@[b] as int == at(self@, b, a),
            decreases n - i,
        {
            let mut row: Vec<i64> = Vec::new();
            let mut j: usize = 0;
            while j < n
                invariant
                    j <= n,
                    i < n,
                    self.wf(),
                    n == self.nrows(),
                    self.ncols() >= self.nrows(),
                    row@.len() == j,
                    forall|b: int| 0 <= b < j ==> row@[b] as int == at(self@, b, i as int),
                decreases n - j,
            {
                proof {
                    self.lemma_view_row(j as int);
                }
                row.push(self.rows[j][i]);
                j = j + 1;
            }
            out.push(row);
            i = i + 1;
        }
        let res: Matrix = Matrix { rows: out };
        proof {
            let t = transpose_s(self@, self.nrows());
            assert forall|i2: int| 0 <= i2 < n implies res@[i2] =~= t[i2] by {
                res.lemma_view_row(i2);
                assert(res@[i2].len() == n);
                assert(t[i2].len() == n);
                assert forall|j2: int| 0 <= j2 < n implies res@[i2][j2] == t[i2][j2] by {
                    assert(out@[i2]@[j2] as int == at(self@, j2, i2));
                    assert(t[i2][j2] == self@[j2][i2]);
                    assert(res@[i2][j2] == out@[i2]@[j2]);
                }
            }
            assert(res@ =~~= t);
        }
        res
    }

    /// Gaussian elimination with partial pivoting: the eliminated
    /// matrix and the number of row swaps performed. Stops early at an
    /// exactly-zero pivot, returning the partially eliminated matrix.
    #[verifier::loop_isolation(false)]
    #[verifier::rlimit(100)]
    pub fn gaussian_elim(&self) -> (res: (Matrix, u32))
        requires
            self.wf(),
            self.ncols() >= self.nrows(),
            self.nrows() <= 0xffffffff,
        ensures
            res.0.wf(),
            res.0.nrows() == self.nrows(),
            res.0.ncols() == self.ncols(),
            res.0@ == gauss_s(self@, 0, 0).0,
            res.1 as int == gauss_s(self@, 0, 0).1,
    {
        let ghost gn: int = self.nrows();
        let ghost gc: int = self.ncols();
        let n: usize = self.rows.len();
        let mut out: Vec<Vec<i64>> = Vec::new();
        let mut i0: usize = 0;
        while i0 < n
            invariant
                i0 <= n,
                out@.len() == i0,
                forall|a: int| 0 <= a < i0 ==> (#[trigger] out@[a])@ == self@[a],
            decreases n - i0,
        {
            proof {
                self.lemma_view_row(i0 as int);
            }
            out.push(copy_row(&self.rows[i0]));
            i0 = i0 + 1;
        }
        let mut res: Matrix = Matrix { rows: out };
        proof {
            assert(res@ =~~= self@);
        }
        let mut swaps: u32 = 0;
        let mut i: usize = 0;
        while i < n
            invariant
                i <= n,
                res.wf(),
                res.nrows() == gn,
                res.ncols() == gc,
                swaps <= i,
                gauss_s(res@, i as int, swaps as int) == gauss_s(self@, 0, 0),
            decreases n - i,
        {
            let mut max_row: usize = i;
            let mut j: usize = i + 1;
            while j <= n
                invariant
                    i < j <= n + 1,
                    j <= n || j == n + 1,
                    i <= max_row < n,
                    argmax_s(res@, i as int, max_row as int, j as int) == argmax_s(
                        res@,
                        i as int,
                        i as int,
                        i as int + 1,
                    ),
                decreases n - j,
            {
                if j == n {
                    break ;
                }
                proof {
                    res.lemma_view_row(j as int);
                    res.lemma_view_row(max_row as int);
                }
                let mj: u64 = mag(res.rows[j][i]);
                let mb: u64 = mag(res.rows[max_row][i]);
                if mj > mb {
                    max_row = j;
                }
                j = j + 1;
            }
            proof {
                assert(argmax_s(res@, i as int, max_row as int, gn) == max_row as int);
            }
            if max_row != i {
                swaps = swaps + 1;
            }
            let ghost mpre = res@;
            let ghost gsw: int = swaps as int;
            let rp: Vec<i64> = copy_row(&res.rows[max_row]);
            let ri: Vec<i64> = copy_row(&res.rows[i]);
            res.rows.set(i, rp);
            res.rows.set(max_row, ri);
            proof {
                res.lemma_view_row(i as int);
                res.lemma_view_row(max_row as int);
                assert(res@ =~~= swap_rows_s(mpre, i as int, max_row as int));
            }
            proof {
                res.lemma_view_row(i as int);
            }
            if res.rows[i][i] == 0 {
                return (res, swaps);
            }
            let ghost msw = res@;
            let cols: usize = self.rows[0].len();
            proof {
                res.lemma_view_row(0);
            }
            let mut j2: usize = i + 1;
            while j2 < n
                invariant
                    i < j2 <= n,
                    res.wf(),
                    res.nrows() == gn,
                    res.ncols() == gc,
                    cols == gc,
                    elim_below_s(res@, i as int, j2 as int) == elim_below_s(
                        msw,
                        i as int,
                        i as int + 1,
                    ),
                    res@[i as int] == msw[i as int],
                decreases n - j2,
            {
                proof {
                    res.lemma_view_row(i as int);
                    res.lemma_view_row(j2 as int);
                }
                let a: i64 = fx_div(res.rows[j2][i], res.rows[i][i]);
                let ghost mcur = res@;
                let ghost arow = res@[j2 as int];
                let mut row: Vec<i64> = copy_row(&res.rows[j2]);
                let mut k: usize = i;
                while k < cols
                    invariant
                        i <= k <= cols,
                        row@.len() == gc,
                        forall|k2: int| 0 <= k2 < i ==> row@[k2] == arow[k2],
                        forall|k2: int| k <= k2 < gc ==> row@[k2] == arow[k2],
                        forall|k2: int|
                            i <= k2 < k ==> row@[k2] as int == fx_sub_s(
                                arow[k2] as int,
                                fx_mul_s(mcur[i as int][k2] as int, a as int),
                            ),
                    decreases cols - k,
                {
                    proof {
                        res.lemma_view_row(i as int);
                    }
                    let nv: i64 = fx_sub(row[k], fx_mul(res.rows[i][k], a));
                    row.set(k, nv);
                    k = k + 1;
                }
                proof {
                    assert(row@ =~= elim_row_s(
                        arow,
                        mcur[i as int],
                        fx_div_s(at(mcur, j2 as int, i as int), at(mcur, i as int, i as int)),
                        i as int,
                    ));
                }
                res.rows.set(j2, row);
                proof {
                    assert(res@ =~~= mcur.update(
                        j2 as int,
                        elim_row_s(
                            arow,
                            mcur[i as int],
                            fx_div_s(at(mcur, j2 as int, i as int), at(mcur, i as int, i as int)),
                            i as int,
                        ),
                    ));
                }
                j2 = j2 + 1;
            }
            i = i + 1;
        }
        (res, swaps)
    }

    /// The determinant, via Gaussian elimination: the fixed-point
    /// product of the diagonal entries, sign flipped once per row swap.
    #[verifier::loop_isolation(false)]
    pub fn det(&self) -> (d: i64)
        requires
            self.wf(),
            self.ncols() >= self.nrows(),
            self.nrows() <= 0xffffffff,
        ensures
            d as int == det_s(self@),
    {
        let (e, sw): (Matrix, u32) = self.gaussian_elim();
        let n: usize = self.rows.len();
        let mut a: i64 = FX_ONE;
        let mut i: usize = 0;
        while i < n
            invariant
                i <= n,
                a as int == diag_prod_s(e@, i as int),
            decreases n - i,
        {
            proof {
                e.lemma_view_row(i as int);
            }
            a = fx_mul(a, e.rows[i][i]);
            i = i + 1;
        }
        if sw % 2 == 0 {
            fx_div(a, FX_ONE)
        } else {
            fx_div(a, -FX_ONE)
        }
    }

    /// The inverse by Gauss-Jordan elimination with partial pivoting on
    /// the augmented matrix `[self | I]`. If a pivot is exactly zero the
    /// matrix is singular: the partially eliminated augmented matrix is
    /// returned as is, and callers must not rely on it.
    #[verifier::loop_isolation(false)]
    #[verifier::rlimit(100)]
    pub fn inverse(&self) -> (res: Matrix)
        requires
            self.wf(),
            self.ncols() == self.nrows(),
            self.nrows() <= 0x40000000,
        ensures
            res.wf(),
            res@ == inverse_s(self@),
            gj_ok_s(aug_s(self@), 0) ==> res.nrows() == self.nrows() && res.ncols()
                == self.nrows(),
            !gj_ok_s(aug_s(self@), 0) ==> res.nrows() == self.nrows() && res.ncols() == 2
                * self.nrows(),
    {
        let ghost gn: int = self.nrows();
        let n: usize = self.rows.len();
        let mut aug: Vec<Vec<i64>> = Vec::new();
        let mut i0: usize = 0;
        while i0 < n
            invariant
                i0 <= n,
                aug@.len() == i0,
                forall|a: int| 0 <= a < i0 ==> (#[trigger] aug@[a])@ == aug_s(self@)[a],
            decreases n - i0,
        {
            proof {
                self.lemma_view_row(i0 as int);
            }
            let mut row: Vec<i64> = copy_row(&self.rows[i0]);
            let mut j: usize = 0;
            while j < n
                invariant
                    j <= n,
                    i0 < n,
                    row@.len() == gn + j,
                    forall|k: int| 0 <= k < gn ==> #[trigger] row@[k] == self@[i0 as int][k],
                    forall|k: int|
                        0 <= k < j ==> #[trigger] row@[gn + k] == (if k == i0 as int {
                            FX_ONE
                        } else {
                            0i64
                        }),
                decreases n - j,
            {
                if j == i0 {
                    row.push(FX_ONE);
                } else {
                    row.push(0);
                }
                j = j + 1;
            }
            proof {
                assert forall|k: int| 0 <= k < 2 * gn implies row@[k] == aug_s(self@)[i0 as int][k] by {
                    if k >= gn {
                        assert(row@[gn + (k - gn)] == (if k - gn == i0 as int {
                            FX_ONE
                        } else {
                            0i64
                        }));
                    }
                }
                assert(row@ =~= aug_s(self@)[i0 as int]);
            }
            aug.push(row);
            i0 = i0 + 1;
        }
        let mut res: Matrix = Matrix { rows: aug };
        proof {
            assert(res@ =~~= aug_s(self@));
        }
        let two_n: usize = n + n;
        let mut i: usize = 0;
        while i < n
            invariant
                i <= n,
                res.wf(),
                res.nrows() == gn,
                res.ncols() == 2 * gn,
                gj_s(res@, i as int) == gj_s(aug_s(self@), 0),
                gj_ok_s(res@, i as int) == gj_ok_s(aug_s(self@), 0),
            decreases n - i,
        {
            let mut max_row: usize = i;
            let mut j: usize = i + 1;
            while j < n
                invariant
                    i < j <= n || (j == i + 1),
                    i <= max_row < n,
                    argmax_s(res@, i as int, max_row as int, j as int) == argmax_s(
                        res@,
                        i as int,
                        i as int,
                        i as int + 1,
                    ),
                decreases n - j,
            {
                proof {
                    res.lemma_view_row(j as int);
                    res.lemma_view_row(max_row as int);
                }
                let mj: u64 = mag(res.rows[j][i]);
                let mb: u64 = mag(res.rows[max_row][i]);
                if mj > mb {
                    max_row = j;
                }
                j = j + 1;
            }
            proof {
                assert(argmax_s(res@, i as int, max_row as int, gn) == max_row as int);
            }
            let ghost mpre = res@;
            let rp: Vec<i64> = copy_row(&res.rows[max_row]);
            let ri: Vec<i64> = copy_row(&res.rows[i]);
            res.rows.set(i, rp);
            res.rows.set(max_row, ri);
            proof {
                res.lemma_view_row(i as int);
                res.lemma_view_row(max_row as int);
                assert(res@ =~~= swap_rows_s(mpre, i as int, max_row as int));
            }
            proof {
                res.lemma_view_row(i as int);
            }
            if res.rows[i][i] == 0 {
                return res;
            }
            let ghost m1 = res@;
            let pivot: i64 = res.rows[i][i];
            let mut prow: Vec<i64> = copy_row(&res.rows[i]);
            let mut k: usize = 0;
            while k < two_n
                invariant
                    k <= two_n,
                    two_n == 2 * gn,
                    prow@.len() == 2 * gn,
                    forall|k2: int| k <= k2 < 2 * gn ==> prow@[k2] == m1[i as int][k2],
                    forall|k2: int|
                        0 <= k2 < k ==> prow@[k2] as int == fx_div_s(
                            m1[i as int][k2] as int,
                            pivot as int,
                        ),
                decreases two_n - k,
            {
                let nv: i64 = fx_div(prow[k], pivot);
                prow.set(k, nv);
                k = k + 1;
            }
            proof {
                assert(prow@ =~= norm_row_s(m1[i as int], pivot as int));
            }
            res.rows.set(i, prow);
            proof {
                assert(res@ =~~= m1.update(
                    i as int,
                    norm_row_s(m1[i as int], at(m1, i as int, i as int)),
                ));
            }
            let ghost m2 = res@;
            let mut j2: usize = 0;
            while j2 < n
                invariant
                    j2 <= n,
                    i < n,
                    res.wf(),
                    res.nrows() == gn,
                    res.ncols() == 2 * gn,
                    two_n == 2 * gn,
                    elim_others_s(res@, i as int, j2 as int) == elim_others_s(m2, i as int, 0),
                    res@[i as int] == m2[i as int],
                decreases n - j2,
            {
                if j2 != i {
                    proof {
                        res.lemma_view_row(i as int);
                        res.lemma_view_row(j2 as int);
                    }
                    let f: i64 = res.rows[j2][i];
                    let ghost mcur = res@;
                    let ghost arow = res@[j2 as int];
                    let mut row: Vec<i64> = copy_row(&res.rows[j2]);
                    let mut k2: usize = 0;
                    while k2 < two_n
                        invariant
                            k2 <= two_n,
                            two_n == 2 * gn,
                            i < n,
                            j2 < n,
                            j2 != i,
                            res.wf(),
                            res.nrows() == gn,
                            res.ncols() == 2 * gn,
                            row@.len() == 2 * gn,
                            res@ == mcur,
                            forall|k3: int| k2 <= k3 < 2 * gn ==> row@[k3] == arow[k3],
                            forall|k3: int|
                                0 <= k3 < k2 ==> row@[k3] as int == fx_sub_s(
                                    arow[k3] as int,
                                    fx_mul_s(mcur[i as int][k3] as int, f as int),
                                ),
                        decreases two_n - k2,
                    {
                        proof {
                            res.lemma_view_row(i as int);
                        }
                        let nv: i64 = fx_sub(row[k2], fx_mul(res.rows[i][k2], f));
                        row.set(k2, nv);
                        k2 = k2 + 1;
                    }
                    proof {
                        assert(row@ =~= elim_full_row_s(
                            arow,
                            mcur[i as int],
                            at(mcur, j2 as int, i as int),
                        ));
                    }
                    res.rows.set(j2, row);
                    proof {
                        assert(res@ =~~= mcur.update(
                            j2 as int,
                            elim_full_row_s(arow, mcur[i as int], at(mcur, j2 as int, i as int)),
                        ));
                    }
                }
                j2 = j2 + 1;
            }
            i = i + 1;
        }
        let mut inv: Vec<Vec<i64>> = Vec::new();
        let mut i2: usize = 0;
        while i2 < n
            invariant
                i2 <= n,
                res.wf(),
                res.nrows() == gn,
                res.ncols() == 2 * gn,
                two_n == 2 * gn,
                inv@.len() == i2,
                forall|a: int|
                    0 <= a < i2 ==> (#[trigger] inv@[a])@ == res@[a].subrange(gn, 2 * gn),
            decreases n - i2,
        {
            proof {
                res.lemma_view_row(i2 as int);
            }
            let mut row: Vec<i64> = Vec::new();
            let mut k: usize = n;
            while k < two_n
                invariant
                    n <= k <= two_n,
                    i2 < n,
                    two_n == 2 * gn,
                    row@.len() == k - n,
                    res@[i2 as int].len() == 2 * gn,
                    res.wf(),
                    res.nrows() == gn,
                    res.ncols() == 2 * gn,
                    forall|k2: int| 0 <= k2 < k - gn ==> row@[k2] == res@[i2 as int][gn + k2],
                decreases two_n - k,
            {
                proof {
                    res.lemma_view_row(i2 as int);
                }
                row.push(res.rows[i2][k]);
                k = k + 1;
            }
            proof {
                assert(row@ =~= res@[i2 as int].subrange(gn, 2 * gn));
            }
            inv.push(row);
            i2 = i2 + 1;
        }
        let out: Matrix = Matrix { rows: inv };
        proof {
            assert(out@ =~~= right_half_s(res@, gn));
        }
        out
    }

    /// Compose `self` with the Euler rotation: `self.mul(&rotation)`.
    pub fn rotate(self, rotation: [i64; 3]) -> (res: Matrix)
        requires
            self.wf(),
            self.nrows() == 4,
            self.ncols() >= 1,
        ensures
            res.wf(),
            res.nrows() == 4,
            res.ncols() == self.ncols(),
            forall|i: int, j: int|
                0 <= i < 4 && 0 <= j < self.ncols() ==> at(res@, i, j) == mul_cell_s(
                    self@,
                    rot_mat_s(rotation[0] as int, rotation[1] as int, rotation[2] as int),
                    i,
                    j,
                    4,
                ),
            res@ == matmul_s(
                self@,
                rot_mat_s(rotation[0] as int, rotation[1] as int, rotation[2] as int),
            ),
    {
        let r: Matrix = rot_matrix(&rotation);
        self.mul(&r)
    }

    /// The perspective projection matrix.
    pub fn projection(fov_y: i64, aspect_ratio: i64, near: i64, far: i64) -> (m: Matrix)
        ensures
            m.wf(),
            m.nrows() == 4,
            m.ncols() == 4,
            m@ =~~= proj_mat_s(fov_y as int, aspect_ratio as int, near as int, far as int),
    {
        let half: i64 = fx_div(fov_y, 2 * FX_ONE);
        let t: i64 = fx_div(fx_sin(half), fx_cos(half));
        let f: i64 = fx_div(FX_ONE, t);
        let nf: i64 = fx_div(FX_ONE, fx_sub(near, far));
        let mut rows: Vec<Vec<i64>> = Vec::new();
        rows.push(row4(fx_div(f, aspect_ratio), 0, 0, 0));
        rows.push(row4(0, f, 0, 0));
        rows.push(row4(0, 0, fx_mul(fx_add(far, near), nf), -FX_ONE));
        rows.push(row4(0, 0, fx_mul(fx_mul(fx_add(far, far), near), nf), 0));
        Matrix { rows }
    }

    /// Transform the point `v` by `self`: append a homogeneous one, take
    /// the single-row product, and drop the fourth component.
    pub fn transform_point(&self, v: [i64; 3]) -> (res: [i64; 3])
        requires
            self.wf(),
            self.nrows() == 4,
            self.ncols() >= 3,
        ensures
            forall|k: int|
                0 <= k < 3 ==> res[k] as int == mul_cell_s(
                    self@,
                    pt_row_s(v[0] as int, v[1] as int, v[2] as int),
                    0,
                    k,
                    4,
                ),
    {
        let mut prow: Vec<i64> = row4(v[0], v[1], v[2], FX_ONE);
        let mut rows: Vec<Vec<i64>> = Vec::new();
        rows.push(prow);
        let p: Matrix = Matrix { rows };
        assert(p@ =~~= pt_row_s(v[0] as int, v[1] as int, v[2] as int));
        let prod: Matrix = self.mul(&p);
        proof {
            prod.lemma_view_row(0);
        }
        let out: [i64; 3] = [prod.rows[0][0], prod.rows[0][1], prod.rows[0][2]];
        proof {
            assert(p@ == pt_row_s(v[0] as int, v[1] as int, v[2] as int));
            assert forall|k: int| 0 <= k < 3 implies out[k] as int == mul_cell_s(
                self@,
                pt_row_s(v[0] as int, v[1] as int, v[2] as int),
                0,
                k,
                4,
            ) by {
                assert(at(prod@, 0, k) == mul_cell_s(self@, p@, 0, k, 4));
                assert(out[0] == prod.rows@[0]@[0] && out[1] == prod.rows@[0]@[1] && out[2]
                    == prod.rows@[0]@[2]);
            }
        }
        out
    }
}

/// The 4x4 rotation matrix for the given Euler angles.
pub fn rot_matrix(rotation: &[i64; 3]) -> (m: Matrix)
    ensures
        m.wf(),
        m.nrows() == 4,
        m.ncols() == 4,
        m@ =~~= rot_mat_s(rotation[0] as int, rotation[1] as int, rotation[2] as int),
{
    let sina: i64 = fx_sin(rotation[0]);
    let cosa: i64 = fx_cos(rotation[0]);
    let sinb: i64 = fx_sin(rotation[1]);
    let cosb: i64 = fx_cos(rotation[1]);
    let sinc: i64 = fx_sin(rotation[2]);
    let cosc: i64 = fx_cos(rotation[2]);
    let mut rows: Vec<Vec<i64>> = Vec::new();
    rows.push(
        row4(
            fx_mul(cosb, cosc),
            fx_sub(fx_mul(fx_mul(sina, sinb), cosc), fx_mul(cosa, sinc)),
            fx_add(fx_mul(fx_mul(cosa, sinb), cosc), fx_mul(sina, sinc)),
            0,
        ),
    );
    rows.push(
        row4(
            fx_mul(cosb, sinc),
            fx_add(fx_mul(fx_mul(sina, sinb), sinc), fx_mul(cosa, cosc)),
            fx_sub(fx_mul(fx_mul(cosa, sinb), sinc), fx_mul(sina, cosc)),
            0,
        ),
    );
    rows.push(row4(fx_neg(sinb), fx_mul(sina, cosb), fx_mul(cosa, cosb), 0));
    rows.push(row4(0, 0, 0, FX_ONE));
    Matrix { rows }
}

} // verus!
