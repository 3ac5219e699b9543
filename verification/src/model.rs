//! Mesh data: vertices with position, normal and texture coordinate,
//! index triples forming triangles, materials with a base color and an
//! optional texture, and models tying them together. The well-formedness
//! conditions here are what the rasterizer and the intersection tester
//! rely on: index values stay inside the vertex list, the index count is
//! a multiple of three, and each mesh's material index resolves.

use vstd::prelude::*;

verus! {

use crate::fixed::FX_ONE;
use crate::texture::Texture;

pub struct Vertex {
    pub position: [i64; 3],
    pub normal: [i64; 3],
    pub tex_coord: [i64; 2],
}

impl Clone for Vertex {
    fn clone(&self) -> (v: Vertex)
        ensures
            v == *self,
    {
        Vertex { position: self.position, normal: self.normal, tex_coord: self.tex_coord }
    }
}

impl Vertex {
    /// The all-zero vertex.
    pub fn zero() -> (v: Vertex)
        ensures
            v.position@ =~= seq![0i64, 0i64, 0i64],
            v.normal@ =~= seq![0i64, 0i64, 0i64],
            v.tex_coord@ =~= seq![0i64, 0i64],
    {
        Vertex { position: [0; 3], normal: [0; 3], tex_coord: [0; 2] }
    }
}

impl Default for Vertex {
    /// The all-zero vertex.
    fn default() -> (v: Vertex)
        ensures
            v.position@ =~= seq![0i64, 0i64, 0i64],
            v.normal@ =~= seq![0i64, 0i64, 0i64],
            v.tex_coord@ =~= seq![0i64, 0i64],
    {
        Vertex::zero()
    }
}

pub struct Mesh {
    pub vertices: Vec<Vertex>,
    pub indices: Vec<u32>,
    pub material_idx: usize,
}

impl Mesh {
    /// Index triples form triangles and every index resolves to a vertex.
    pub open spec fn wf(self) -> bool {
        &&& self.indices@.len() % 3 == 0
        &&& forall|i: int|
            0 <= i < self.indices@.len() ==> (#[trigger] self.indices@[i]) < self.vertices@.len()
    }

    /// The number of triangles.
    pub open spec fn tri_count(self) -> int {
        self.indices@.len() as int / 3
    }

    /// Check the mesh invariant, as a loader would before handing the
    /// mesh to the rasterizer.
    pub fn validate(&self) -> (ok: bool)
        ensures
            ok == self.wf(),
    {
        if self.indices.len() % 3 != 0 {
            return false;
        }
        let n: usize = self.indices.len();
        let vn: usize = self.vertices.len();
        let mut i: usize = 0;
        while i < n
            invariant
                i <= n,
                n == self.indices@.len(),
                vn == self.vertices@.len(),
                forall|k: int| 0 <= k < i ==> (#[trigger] self.indices@[k]) < vn,
            decreases n - i,
        {
            if !((self.indices[i] as usize) < vn) {
                return false;
            }
            i = i + 1;
        }
        true
    }
}

pub struct Material {
    pub base_col: [i64; 4],
    pub base_color_texture: Option<Texture>,
}

impl Material {
    /// A texture, when present, must be sampleable.
    pub open spec fn wf(self) -> bool {
        match self.base_color_texture {
            Some(t) => t.sampleable(),
            None => true,
        }
    }
}

impl Default for Material {
    /// Opaque white with no texture.
    fn default() -> (m: Material)
        ensures
            m.base_col@ =~= seq![FX_ONE, FX_ONE, FX_ONE, FX_ONE],
            m.base_color_texture is None,
            m.wf(),
    {
        Material { base_col: [FX_ONE; 4], base_color_texture: None }
    }
}

pub struct Model {
    pub meshes: Vec<Mesh>,
    pub mats: Vec<Material>,
}

impl Model {
    /// Every mesh is well formed, its material index resolves, and every
    /// material is usable.
    pub open spec fn wf(self) -> bool {
        &&& forall|i: int|
            0 <= i < self.meshes@.len() ==> (#[trigger] self.meshes@[i]).wf()
        &&& forall|i: int|
            0 <= i < self.meshes@.len() ==> (#[trigger] self.meshes@[i]).material_idx
                < self.mats@.len()
        &&& forall|i: int| 0 <= i < self.mats@.len() ==> (#[trigger] self.mats@[i]).wf()
    }
}

} // verus!
