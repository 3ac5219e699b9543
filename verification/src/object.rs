//! A renderable entity: a model plus its transform state (position,
//! Euler rotation, scale), with rendering and ray picking.
//!
//! `render` composes the model matrix, its inverse-transpose for
//! normals, and the caller's view-projection matrix, then rasterizes
//! the model. `raycast` walks every triangle in world space, solves the
//! Moller-Trumbore system with determinant-based solves, and keeps the
//! closest valid hit; its result is pinned exactly by a spec-level fold
//! over the triangles.

use vstd::prelude::*;

verus! {

use crate::fixed::{
    FX_ONE, fx_add, fx_add_s, fx_sub, fx_sub_s, fx_mul, fx_mul_s, fx_div, fx_div_s, fx_neg,
    fx_neg_s, fx_sqrt, fx_sqrt_s,
};
use crate::matrix::{
    Matrix, mul_cell_s, pt_row_s, matmul_s, trans_mat_s, scaling_mat_s, rot_mat_s, det_s,
    inverse_s, transpose_s,
};
use crate::model::{Vertex, Mesh, Material, Model};
use crate::framebuffer::Framebuffer;
use crate::draw::{draw_model, draw_line, draw_triangle, pix, model_apply_s};

/// The small positive threshold on the ray parameter; machine epsilon
/// lies below one fixed-point tick, so the test is strict positivity.
pub const RAY_EPS: i64 = 0;

pub struct Object {
    pub model: Model,
    pub position: [i64; 3],
    pub rotation: [i64; 3],
    pub scale: [i64; 3],
}

/// The composed local-to-world matrix: translate, rotate, then scale,
/// in this pipeline's multiplication convention.
pub open spec fn world_mat_s(position: [i64; 3], rotation: [i64; 3], scale: [i64; 3]) -> Seq<
    Seq<i64>,
> {
    matmul_s(
        matmul_s(
            trans_mat_s(position[0] as int, position[1] as int, position[2] as int),
            rot_mat_s(rotation[0] as int, rotation[1] as int, rotation[2] as int),
        ),
        scaling_mat_s(scale[0] as int, scale[1] as int, scale[2] as int),
    )
}

/// Component `k` of a vertex position pushed through the world matrix.
pub open spec fn wv_s(wm: Seq<Seq<i64>>, v: Vertex, k: int) -> int {
    mul_cell_s(
        wm,
        pt_row_s(v.position[0] as int, v.position[1] as int, v.position[2] as int),
        0,
        k,
        4,
    )
}

pub open spec fn v3_s(a: int, b: int, c: int) -> Seq<i64> {
    seq![a as i64, b as i64, c as i64]
}

pub open spec fn mat3_s(r0: Seq<i64>, r1: Seq<i64>, r2: Seq<i64>) -> Seq<Seq<i64>> {
    seq![r0, r1, r2]
}

/// The Moller-Trumbore test of one world-space triangle: barycentric
/// parameters and the ray parameter from three determinant solves,
/// the parameter's sign chosen so that a hit lies at
/// `origin + t * direction`; a hit is valid iff `u` and `v` lie in
/// `[0, 1]`, `u + v <= 1`, and `t` is strictly positive (rejecting
/// behind-origin and self intersections). Yields the hit's distance
/// from the ray origin and the intersection point.
pub open spec fn tri_hit_s(
    wm: Seq<Seq<i64>>,
    va: Vertex,
    vb: Vertex,
    vc: Vertex,
    ox: int,
    oy: int,
    oz: int,
    rx: int,
    ry: int,
    rz: int,
) -> Option<(int, (int, int, int))> {
    let e1 = (fx_sub_s(wv_s(wm, vb, 0), wv_s(wm, va, 0)), fx_sub_s(wv_s(wm, vb, 1), wv_s(wm, va, 1)), fx_sub_s(wv_s(wm, vb, 2), wv_s(wm, va, 2)));
    let e2 = (fx_sub_s(wv_s(wm, vc, 0), wv_s(wm, va, 0)), fx_sub_s(wv_s(wm, vc, 1), wv_s(wm, va, 1)), fx_sub_s(wv_s(wm, vc, 2), wv_s(wm, va, 2)));
    let s = (fx_sub_s(ox, wv_s(wm, va, 0)), fx_sub_s(oy, wv_s(wm, va, 1)), fx_sub_s(oz, wv_s(wm, va, 2)));
    let e1r = v3_s(e1.0, e1.1, e1.2);
    let e2r = v3_s(e2.0, e2.1, e2.2);
    let sr = v3_s(s.0, s.1, s.2);
    let rr = v3_s(rx, ry, rz);
    let inv_det = fx_div_s(FX_ONE as int, det_s(mat3_s(e1r, e2r, rr)));
    let u = fx_mul_s(det_s(mat3_s(sr, e2r, rr)), inv_det);
    if !(0 <= u <= FX_ONE as int) {
        None
    } else {
        let v = fx_mul_s(det_s(mat3_s(e1r, sr, rr)), inv_det);
        if !(0 <= v <= FX_ONE as int) || fx_add_s(u, v) > FX_ONE as int {
            None
        } else {
            let t = fx_neg_s(fx_mul_s(det_s(mat3_s(e1r, e2r, sr)), inv_det));
            if !(t > RAY_EPS as int) {
                None
            } else {
                let ip = (
                    fx_add_s(ox, fx_mul_s(rx, t)),
                    fx_add_s(oy, fx_mul_s(ry, t)),
                    fx_add_s(oz, fx_mul_s(rz, t)),
                );
                let dm = (fx_sub_s(ip.0, ox), fx_sub_s(ip.1, oy), fx_sub_s(ip.2, oz));
                let d = fx_sqrt_s(
                    fx_add_s(
                        fx_add_s(fx_mul_s(dm.0, dm.0), fx_mul_s(dm.1, dm.1)),
                        fx_mul_s(dm.2, dm.2),
                    ),
                );
                Some((d, ip))
            }
        }
    }
}

/// The closest valid hit among the first `t` triangles of one mesh,
/// starting from `acc` (current minimum distance and point).
pub open spec fn ray_mesh_s(
    mesh: Mesh,
    wm: Seq<Seq<i64>>,
    ox: int,
    oy: int,
    oz: int,
    rx: int,
    ry: int,
    rz: int,
    t: int,
    acc: (int, (int, int, int)),
) -> (int, (int, int, int))
    decreases t,
{
    if t <= 0 {
        acc
    } else {
        let prev = ray_mesh_s(mesh, wm, ox, oy, oz, rx, ry, rz, t - 1, acc);
        let va = mesh.vertices@[mesh.indices@[3 * (t - 1)] as int];
        let vb = mesh.vertices@[mesh.indices@[3 * (t - 1) + 1] as int];
        let vc = mesh.vertices@[mesh.indices@[3 * (t - 1) + 2] as int];
        match tri_hit_s(wm, va, vb, vc, ox, oy, oz, rx, ry, rz) {
            Some(h) => if h.0 < prev.0 {
                h
            } else {
                prev
            },
            None => prev,
        }
    }
}

/// The closest valid hit across the first `m` meshes of a model.
pub open spec fn ray_model_s(
    meshes: Seq<Mesh>,
    wm: Seq<Seq<i64>>,
    ox: int,
    oy: int,
    oz: int,
    rx: int,
    ry: int,
    rz: int,
    m: int,
    acc: (int, (int, int, int)),
) -> (int, (int, int, int))
    decreases m,
{
    if m <= 0 {
        acc
    } else {
        let prev = ray_model_s(meshes, wm, ox, oy, oz, rx, ry, rz, m - 1, acc);
        ray_mesh_s(
            meshes[m - 1],
            wm,
            ox,
            oy,
            oz,
            rx,
            ry,
            rz,
            meshes[m - 1].indices@.len() as int / 3,
            prev,
        )
    }
}

/// The determinant of the 3x3 matrix with the given rows.
fn det3(r0: [i64; 3], r1: [i64; 3], r2: [i64; 3]) -> (d: i64)
    ensures
        d as int == det_s(
            mat3_s(
                v3_s(r0[0] as int, r0[1] as int, r0[2] as int),
                v3_s(r1[0] as int, r1[1] as int, r1[2] as int),
                v3_s(r2[0] as int, r2[1] as int, r2[2] as int),
            ),
        ),
{
    let mut rows: Vec<Vec<i64>> = Vec::new();
    let mut a: Vec<i64> = Vec::new();
    a.push(r0[0]);
    a.push(r0[1]);
    a.push(r0[2]);
    rows.push(a);
    let mut b: Vec<i64> = Vec::new();
    b.push(r1[0]);
    b.push(r1[1]);
    b.push(r1[2]);
    rows.push(b);
    let mut c: Vec<i64> = Vec::new();
    c.push(r2[0]);
    c.push(r2[1]);
    c.push(r2[2]);
    rows.push(c);
    let m: Matrix = Matrix { rows };
    proof {
        assert(m@ =~~= mat3_s(
            v3_s(r0[0] as int, r0[1] as int, r0[2] as int),
            v3_s(r1[0] as int, r1[1] as int, r1[2] as int),
            v3_s(r2[0] as int, r2[1] as int, r2[2] as int),
        ));
    }
    m.det()
}

/// The outward unit normal shared by the four vertices of cube face
/// `f`, in construction order: four side faces, then the two
/// horizontal faces.
pub open spec fn cube_normal_s(f: int) -> (int, int, int) {
    if f == 0 {
        (0, 0, FX_ONE as int)
    } else if f == 1 {
        (FX_ONE as int, 0, 0)
    } else if f == 2 {
        (0, 0, -(FX_ONE as int))
    } else if f == 3 {
        (-(FX_ONE as int), 0, 0)
    } else if f == 4 {
        (0, -(FX_ONE as int), 0)
    } else {
        (0, FX_ONE as int, 0)
    }
}

/// A cube vertex of face `f`: every position coordinate on the
/// half-unit cube, and the face's axis-aligned unit normal.
pub open spec fn cube_vertex_ok_s(v: Vertex, f: int) -> bool {
    &&& (v.position[0] == 32768i64 || v.position[0] == -32768i64)
    &&& (v.position[1] == 32768i64 || v.position[1] == -32768i64)
    &&& (v.position[2] == 32768i64 || v.position[2] == -32768i64)
    &&& (v.normal[0] as int, v.normal[1] as int, v.normal[2] as int) == cube_normal_s(f)
}

impl Object {
    pub fn new(model: Model, position: [i64; 3], rotation: [i64; 3], scale: [i64; 3]) -> (o:
        Object)
        ensures
            o.model == model,
            o.position == position,
            o.rotation == rotation,
            o.scale == scale,
    {
        Object { model, position, rotation, scale }
    }

    /// A unit cube centered on the origin (edge length one), with one
    /// mesh of 24 vertices and 12 triangles, per-face normals, an
    /// atlas-style texture coordinate layout of six faces side by side,
    /// and a single material carrying the given texture (white base
    /// color). Position, rotation and scale are taken as given.
    #[verifier::loop_isolation(false)]
    pub fn cube(
        position: [i64; 3],
        rotation: [i64; 3],
        scale: [i64; 3],
        texture: Option<crate::texture::Texture>,
    ) -> (o: Object)
        requires
            match texture {
                Some(t) => t.sampleable(),
                None => true,
            },
        ensures
            o.model.wf(),
            o.model.meshes@.len() == 1,
            o.model.mats@.len() == 1,
            o.model.meshes@[0].vertices@.len() == 24,
            o.model.meshes@[0].indices@.len() == 36,
            o.model.meshes@[0].material_idx == 0,
            o.model.mats@[0].base_col@ =~= seq![FX_ONE, FX_ONE, FX_ONE, FX_ONE],
            o.model.mats@[0].base_color_texture == texture,
            forall|k: int|
                0 <= k < 24 ==> cube_vertex_ok_s(
                    #[trigger] o.model.meshes@[0].vertices@[k],
                    k / 4,
                ),
            o.position == position,
            o.rotation == rotation,
            o.scale == scale,
    {
        let half: i64 = 32768;
        let sixth: i64 = 6 * FX_ONE;
        let mut vertices: Vec<Vertex> = Vec::new();
        let mut i: usize = 0;
        while i < 4
            invariant
                i <= 4,
                vertices@.len() == 4 * i,
                forall|t: int|
                    0 <= t < vertices@.len() ==> cube_vertex_ok_s(
                        #[trigger] vertices@[t],
                        t / 4,
                    ),
            decreases 4 - i,
        {
            let mut j: usize = 0;
            while j < 4
                invariant
                    j <= 4,
                    i < 4,
                    vertices@.len() == 4 * i + j,
                    forall|t: int|
                        0 <= t < vertices@.len() ==> cube_vertex_ok_s(
                            #[trigger] vertices@[t],
                            t / 4,
                        ),
                decreases 4 - j,
            {
                let pos: [i64; 3] = if i % 2 == 1 {
                    [
                        half - (if i % 4 > 1 {
                            FX_ONE
                        } else {
                            0
                        }),
                        -half + (if j % 4 > 1 {
                            FX_ONE
                        } else {
                            0
                        }),
                        -half + (if (i + j + 2) % 4 > 1 {
                            FX_ONE
                        } else {
                            0
                        }),
                    ]
                } else {
                    [
                        -half + (if (j + i + 1) % 4 > 1 {
                            FX_ONE
                        } else {
                            0
                        }),
                        -half + (if j % 4 > 1 {
                            FX_ONE
                        } else {
                            0
                        }),
                        half - (if i % 4 > 1 {
                            FX_ONE
                        } else {
                            0
                        }),
                    ]
                };
                let im: i64 = (i % 2) as i64;
                let fa: i64 = 2 - i as i64;
                let ip1: i64 = ((i + 1) % 2) as i64;
                let fc: i64 = 1 - i as i64;
                proof {
                    assert(-3 * 65536 <= im * fa * 65536 <= 3 * 65536 && -3 * 65536 <= ip1 * fc
                        * 65536 <= 3 * 65536) by (nonlinear_arith)
                        requires
                            0 <= im <= 1,
                            -2 <= fa <= 2,
                            0 <= ip1 <= 1,
                            -3 <= fc <= 1,
                    ;
                }
                let normal: [i64; 3] = [im * fa * FX_ONE, 0, ip1 * fc * FX_ONE];
                proof {
                    assert((4 * i + j) as int / 4 == i as int) by (nonlinear_arith)
                        requires
                            i < 4,
                            j < 4,
                    ;
                    if i == 0 {
                        assert(im == 0 && ip1 == 1 && fc == 1);
                    } else if i == 1 {
                        assert(im == 1 && fa == 1 && ip1 == 0);
                    } else if i == 2 {
                        assert(im == 0 && ip1 == 1 && fc == -1);
                    } else {
                        assert(im == 1 && fa == -1 && ip1 == 0);
                    }
                    assert((normal[0] as int, normal[1] as int, normal[2] as int)
                        == cube_normal_s(i as int));
                }
                let tu: i64 = (i as i64 + (if (j + 1) % 4 > 1 {
                    1
                } else {
                    0
                })) * FX_ONE;
                let tex_coord: [i64; 2] = [fx_div(tu, sixth), fx_add(pos[1], half)];
                vertices.push(Vertex { position: pos, normal, tex_coord });
                j = j + 1;
            }
            i = i + 1;
        }
        let mut i2: usize = 0;
        while i2 < 4
            invariant
                i2 <= 4,
                vertices@.len() == 16 + i2,
                forall|t: int|
                    0 <= t < vertices@.len() ==> cube_vertex_ok_s(
                        #[trigger] vertices@[t],
                        t / 4,
                    ),
            decreases 4 - i2,
        {
            let pos: [i64; 3] = [
                half - (if i2 % 4 > 1 {
                    FX_ONE
                } else {
                    0
                }),
                -half,
                half - (if (i2 + 3) % 4 > 1 {
                    FX_ONE
                } else {
                    0
                }),
            ];
            let tex_coord: [i64; 2] = [
                fx_div(fx_add(4 * FX_ONE, fx_add(pos[0], half)), sixth),
                fx_add(pos[2], half),
            ];
            vertices.push(Vertex { position: pos, normal: [0, -FX_ONE, 0], tex_coord });
            i2 = i2 + 1;
        }
        let mut i3: usize = 0;
        while i3 < 4
            invariant
                i3 <= 4,
                vertices@.len() == 20 + i3,
                forall|t: int|
                    0 <= t < vertices@.len() ==> cube_vertex_ok_s(
                        #[trigger] vertices@[t],
                        t / 4,
                    ),
            decreases 4 - i3,
        {
            let pos: [i64; 3] = [
                half - (if i3 % 4 > 1 {
                    FX_ONE
                } else {
                    0
                }),
                half,
                half - (if (i3 + 1) % 4 > 1 {
                    FX_ONE
                } else {
                    0
                }),
            ];
            let tex_coord: [i64; 2] = [
                fx_div(fx_add(5 * FX_ONE, fx_add(pos[0], half)), sixth),
                fx_add(pos[2], half),
            ];
            vertices.push(Vertex { position: pos, normal: [0, FX_ONE, 0], tex_coord });
            i3 = i3 + 1;
        }
        let mut indices: Vec<u32> = Vec::new();
        let mut f: u32 = 0;
        while f < 6
            invariant
                f <= 6,
                indices@.len() == 6 * f,
                forall|k: int| 0 <= k < indices@.len() ==> (#[trigger] indices@[k]) < 24,
            decreases 6 - f,
        {
            indices.push(f * 4);
            indices.push(f * 4 + 1);
            indices.push(f * 4 + 2);
            indices.push(f * 4);
            indices.push(f * 4 + 2);
            indices.push(f * 4 + 3);
            f = f + 1;
        }
        let mesh: Mesh = Mesh { vertices, indices, material_idx: 0 };
        let mat: Material = Material { base_col: [FX_ONE; 4], base_color_texture: texture };
        let mut meshes: Vec<Mesh> = Vec::new();
        meshes.push(mesh);
        let mut mats: Vec<Material> = Vec::new();
        mats.push(mat);
        let model: Model = Model { meshes, mats };
        Object { model, position, rotation, scale }
    }

    /// Render the model with this entity's transform state under the
    /// caller's view-projection matrix: translate by the negated
    /// position, rotate, scale, and rasterize with the model matrix's
    /// transposed inverse for normals. Depth values never move away and
    /// a pixel's color changes only when its depth strictly decreases.
    #[verifier::rlimit(100)]
    pub fn render(&self, fb: &mut Framebuffer, depth_buffer: &mut Framebuffer, view_proj: &Matrix)
        requires
            old(fb).wf(),
            old(depth_buffer).wf(),
            old(depth_buffer).spec_width() == old(fb).spec_width(),
            old(depth_buffer).spec_height() == old(fb).spec_height(),
            old(fb).spec_width() <= 0x100000,
            old(fb).spec_height() <= 0x100000,
            self.model.wf(),
            view_proj.wf(),
            view_proj.nrows() == 4,
            view_proj.ncols() == 4,
        ensures
            final(fb).wf(),
            final(depth_buffer).wf(),
            final(fb).spec_width() == old(fb).spec_width(),
            final(fb).spec_height() == old(fb).spec_height(),
            final(depth_buffer).spec_width() == old(fb).spec_width(),
            final(depth_buffer).spec_height() == old(fb).spec_height(),
            forall|i: int, j: int|
                #![trigger pix(old(fb).spec_width(), i, j)]
                0 <= i < old(fb).spec_width() && 0 <= j < old(fb).spec_height() ==> (final(depth_buffer)@[pix(old(fb).spec_width(), i, j)] as int) <= (old(depth_buffer)@[pix(
                    old(fb).spec_width(),
                    i,
                    j,
                )] as int),
            forall|i: int, j: int|
                #![trigger pix(old(fb).spec_width(), i, j)]
                0 <= i < old(fb).spec_width() && 0 <= j < old(fb).spec_height() ==> (final(fb)@[pix(
                    old(fb).spec_width(),
                    i,
                    j,
                )] == old(fb)@[pix(old(fb).spec_width(), i, j)]) || ((final(depth_buffer)@[pix(
                    old(fb).spec_width(),
                    i,
                    j,
                )] as int) < (old(depth_buffer)@[pix(old(fb).spec_width(), i, j)] as int)),
            ({
                let mod_s = matmul_s(
                    matmul_s(
                        trans_mat_s(
                            fx_neg_s(self.position[0] as int),
                            fx_neg_s(self.position[1] as int),
                            fx_neg_s(self.position[2] as int),
                        ),
                        rot_mat_s(
                            self.rotation[0] as int,
                            self.rotation[1] as int,
                            self.rotation[2] as int,
                        ),
                    ),
                    scaling_mat_s(self.scale[0] as int, self.scale[1] as int, self.scale[2] as int),
                );
                let r = model_apply_s(
                    (old(fb)@, old(depth_buffer)@),
                    self.model.meshes@,
                    self.model.mats@,
                    matmul_s(view_proj@, mod_s),
                    transpose_s(inverse_s(mod_s), 4),
                    old(fb).spec_width(),
                    old(fb).spec_height(),
                    self.model.meshes@.len() as int,
                );
                final(fb)@ == r.0 && final(depth_buffer)@ == r.1
            }),
    {
        let p0: i64 = fx_neg(self.position[0]);
        let p1: i64 = fx_neg(self.position[1]);
        let p2: i64 = fx_neg(self.position[2]);
        let pos: [i64; 3] = [p0, p1, p2];
        proof {
            assert(pos[0] == p0 && pos[1] == p1 && pos[2] == p2);
        }
        let pos_matrix: Matrix = Matrix::trans(pos).rotate(self.rotation);
        let scale_matrix: Matrix = Matrix::scaling(self.scale);
        let mod_matrix: Matrix = pos_matrix.mul(&scale_matrix);
        proof {
            assert(mod_matrix@ == matmul_s(
                matmul_s(
                    trans_mat_s(
                        fx_neg_s(self.position[0] as int),
                        fx_neg_s(self.position[1] as int),
                        fx_neg_s(self.position[2] as int),
                    ),
                    rot_mat_s(
                        self.rotation[0] as int,
                        self.rotation[1] as int,
                        self.rotation[2] as int,
                    ),
                ),
                scaling_mat_s(self.scale[0] as int, self.scale[1] as int, self.scale[2] as int),
            ));
        }
        let invmod: Matrix = mod_matrix.inverse().transpose();
        let mvp: Matrix = view_proj.mul(&mod_matrix);
        draw_model(fb, depth_buffer, &self.model, &mvp, &invmod);
    }

    /// Cast a ray against this entity's mesh in world space and return
    /// the closest valid hit: the hit distance (the input maximum when
    /// nothing was hit) and the world hit point (the ray origin when
    /// nothing was hit). Only when `draw` is set, a debug line is drawn
    /// to each new closest hit and a small marker triangle at the final
    /// one, offset slightly along the view axis to avoid depth fighting
    /// with the surface; with `draw` unset, or when nothing was hit,
    /// both buffers are left exactly as they were.
    #[verifier::loop_isolation(false)]
    #[verifier::rlimit(100)]
    pub fn raycast(
        &self,
        ray_origin: [i64; 3],
        ray_dir: [i64; 3],
        dist: i64,
        fb: &mut Framebuffer,
        depth_buffer: &mut Framebuffer,
        mvp: &Matrix,
        draw: bool,
    ) -> (res: (i64, [i64; 3]))
        requires
            old(fb).wf(),
            old(depth_buffer).wf(),
            old(depth_buffer).spec_width() == old(fb).spec_width(),
            old(depth_buffer).spec_height() == old(fb).spec_height(),
            old(fb).spec_width() <= 0x100000,
            old(fb).spec_height() <= 0x100000,
            self.model.wf(),
            mvp.wf(),
            mvp.nrows() == 4,
            mvp.ncols() == 4,
        ensures
            final(fb).wf(),
            final(depth_buffer).wf(),
            final(fb).spec_width() == old(fb).spec_width(),
            final(fb).spec_height() == old(fb).spec_height(),
            final(depth_buffer).spec_width() == old(fb).spec_width(),
            final(depth_buffer).spec_height() == old(fb).spec_height(),
            ({
                let f = ray_model_s(
                    self.model.meshes@,
                    world_mat_s(self.position, self.rotation, self.scale),
                    ray_origin[0] as int,
                    ray_origin[1] as int,
                    ray_origin[2] as int,
                    ray_dir[0] as int,
                    ray_dir[1] as int,
                    ray_dir[2] as int,
                    self.model.meshes@.len() as int,
                    (dist as int, (ray_origin[0] as int, ray_origin[1] as int, ray_origin[2] as int)),
                );
                res.0 as int == f.0 && res.1[0] as int == f.1.0 && res.1[1] as int == f.1.1
                    && res.1[2] as int == f.1.2
            }),
            !draw ==> final(fb)@ == old(fb)@ && final(depth_buffer)@ == old(depth_buffer)@,
            res.0 == dist ==> final(fb)@ == old(fb)@ && final(depth_buffer)@ == old(
                depth_buffer,
            )@,
    {
        let ghost gw: int = old(fb).spec_width();
        let ghost gh: int = old(fb).spec_height();
        let ghost go: (int, int, int) = (
            ray_origin[0] as int,
            ray_origin[1] as int,
            ray_origin[2] as int,
        );
        let ghost gr: (int, int, int) = (ray_dir[0] as int, ray_dir[1] as int, ray_dir[2] as int);
        let mut mind: i64 = dist;
        let mut minp: [i64; 3] = ray_origin;
        let mut hit0: Vertex = Vertex::zero();
        let mut hit1: Vertex = Vertex::zero();
        let mut hit2: Vertex = Vertex::zero();
        let scale_m: Matrix = Matrix::scaling(self.scale);
        let pos_matrix: Matrix = Matrix::trans(self.position).rotate(self.rotation).mul(&scale_m);
        let ghost gwm: Seq<Seq<i64>> = world_mat_s(self.position, self.rotation, self.scale);
        proof {
            assert(pos_matrix@ == gwm);
        }
        let ghost init: (int, (int, int, int)) = (dist as int, go);
        let nm: usize = self.model.meshes.len();
        let mut m: usize = 0;
        while m < nm
            invariant
                m <= nm,
                fb.wf(),
                depth_buffer.wf(),
                fb.spec_width() == gw,
                fb.spec_height() == gh,
                depth_buffer.spec_width() == gw,
                depth_buffer.spec_height() == gh,
                (mind as int, (minp[0] as int, minp[1] as int, minp[2] as int)) == ray_model_s(
                    self.model.meshes@,
                    gwm,
                    go.0,
                    go.1,
                    go.2,
                    gr.0,
                    gr.1,
                    gr.2,
                    m as int,
                    init,
                ),
                mind <= dist,
                !draw ==> fb@ == old(fb)@ && depth_buffer@ == old(depth_buffer)@,
                mind == dist ==> fb@ == old(fb)@ && depth_buffer@ == old(depth_buffer)@,
            decreases nm - m,
        {
            proof {
                assert(self.model.meshes@[m as int].wf());
            }
            let mesh: &Mesh = &self.model.meshes[m];
            let ghost accm: (int, (int, int, int)) = (
                mind as int,
                (minp[0] as int, minp[1] as int, minp[2] as int),
            );
            let ntri: usize = mesh.indices.len() / 3;
            let mut t: usize = 0;
            while t < ntri
                invariant
                    t <= ntri,
                    m < nm,
                    ntri == mesh.indices@.len() / 3,
                    mesh == &self.model.meshes@[m as int],
                    fb.wf(),
                    depth_buffer.wf(),
                    fb.spec_width() == gw,
                    fb.spec_height() == gh,
                    depth_buffer.spec_width() == gw,
                    depth_buffer.spec_height() == gh,
                    (mind as int, (minp[0] as int, minp[1] as int, minp[2] as int)) == ray_mesh_s(
                        self.model.meshes@[m as int],
                        gwm,
                        go.0,
                        go.1,
                        go.2,
                        gr.0,
                        gr.1,
                        gr.2,
                        t as int,
                        accm,
                    ),
                    mind <= dist,
                    !draw ==> fb@ == old(fb)@ && depth_buffer@ == old(depth_buffer)@,
                    mind == dist ==> fb@ == old(fb)@ && depth_buffer@ == old(depth_buffer)@,
                decreases ntri - t,
            {
                proof {
                    assert(mesh.wf());
                    assert(mesh.indices@[3 * t as int] < mesh.vertices@.len());
                    assert(mesh.indices@[3 * t as int + 1] < mesh.vertices@.len());
                    assert(mesh.indices@[3 * t as int + 2] < mesh.vertices@.len());
                }
                let i0: usize = mesh.indices[3 * t] as usize;
                let i1: usize = mesh.indices[3 * t + 1] as usize;
                let i2: usize = mesh.indices[3 * t + 2] as usize;
                let va: &Vertex = &mesh.vertices[i0];
                let vb: &Vertex = &mesh.vertices[i1];
                let vc: &Vertex = &mesh.vertices[i2];
                let aw: [i64; 3] = pos_matrix.transform_point(va.position);
                let bw: [i64; 3] = pos_matrix.transform_point(vb.position);
                let cw: [i64; 3] = pos_matrix.transform_point(vc.position);
                proof {
                    assert(forall|k: int|
                        0 <= k < 3 ==> aw[k] as int == wv_s(gwm, *va, k) && bw[k] as int == wv_s(
                            gwm,
                            *vb,
                            k,
                        ) && cw[k] as int == wv_s(gwm, *vc, k));
                }
                let e1: [i64; 3] = [fx_sub(bw[0], aw[0]), fx_sub(bw[1], aw[1]), fx_sub(
                    bw[2],
                    aw[2],
                )];
                let e2: [i64; 3] = [fx_sub(cw[0], aw[0]), fx_sub(cw[1], aw[1]), fx_sub(
                    cw[2],
                    aw[2],
                )];
                let sv: [i64; 3] = [fx_sub(ray_origin[0], aw[0]), fx_sub(ray_origin[1], aw[1]), fx_sub(
                    ray_origin[2],
                    aw[2],
                )];
                let ghost hh = tri_hit_s(gwm, *va, *vb, *vc, go.0, go.1, go.2, gr.0, gr.1, gr.2);
                let det: i64 = det3(e1, e2, ray_dir);
                let inv_det: i64 = fx_div(FX_ONE, det);
                let u: i64 = fx_mul(det3(sv, e2, ray_dir), inv_det);
                if u < 0 || u > FX_ONE {
                    proof {
                        assert(hh is None);
                    }
                    t = t + 1;
                    continue ;
                }
                let v: i64 = fx_mul(det3(e1, sv, ray_dir), inv_det);
                if v < 0 || v > FX_ONE || fx_add(u, v) > FX_ONE {
                    proof {
                        assert(hh is None);
                    }
                    t = t + 1;
                    continue ;
                }
                let tt: i64 = fx_neg(fx_mul(det3(e1, e2, sv), inv_det));
                if tt > RAY_EPS {
                    let ip: [i64; 3] = [
                        fx_add(ray_origin[0], fx_mul(ray_dir[0], tt)),
                        fx_add(ray_origin[1], fx_mul(ray_dir[1], tt)),
                        fx_add(ray_origin[2], fx_mul(ray_dir[2], tt)),
                    ];
                    let dm: [i64; 3] = [fx_sub(ip[0], ray_origin[0]), fx_sub(
                        ip[1],
                        ray_origin[1],
                    ), fx_sub(ip[2], ray_origin[2])];
                    let d: i64 = fx_sqrt(
                        fx_add(
                            fx_add(fx_mul(dm[0], dm[0]), fx_mul(dm[1], dm[1])),
                            fx_mul(dm[2], dm[2]),
                        ),
                    );
                    proof {
                        assert(hh == Some((d as int, (ip[0] as int, ip[1] as int, ip[2] as int))));
                    }
                    if d < mind {
                        mind = d;
                        minp = ip;
                        hit0 = va.clone();
                        hit1 = vb.clone();
                        hit2 = vc.clone();
                        if draw {
                            let origin2: [i64; 3] = [
                                ray_origin[0],
                                ray_origin[1],
                                fx_add(ray_origin[2], 655),
                            ];
                            draw_line(fb, depth_buffer, &origin2, &ip, mvp);
                        }
                    }
                } else {
                    proof {
                        assert(hh is None);
                    }
                }
                t = t + 1;
            }
            m = m + 1;
        }
        if draw && mind < dist {
            let mat: Material = Material {
                base_col: [FX_ONE, 0, 0, FX_ONE],
                base_color_texture: None,
            };
            let d0: Vertex = Vertex {
                position: [
                    fx_add(minp[0], -3277),
                    fx_add(minp[1], -3277),
                    fx_add(minp[2], 6554),
                ],
                normal: hit0.normal,
                tex_coord: hit0.tex_coord,
            };
            let d1: Vertex = Vertex {
                position: [
                    fx_add(minp[0], 3277),
                    fx_add(minp[1], -3277),
                    fx_add(minp[2], 6554),
                ],
                normal: hit1.normal,
                tex_coord: hit1.tex_coord,
            };
            let d2: Vertex = Vertex {
                position: [
                    minp[0],
                    fx_add(minp[1], 6554),
                    fx_add(minp[2], 6554),
                ],
                normal: hit2.normal,
                tex_coord: hit2.tex_coord,
            };
            let ident: Matrix = Matrix::identity();
            draw_triangle(fb, depth_buffer, &d0, &d1, &d2, mvp, &ident, &mat);
        }
        (mind, minp)
    }
}

} // verus!
