//! Mesh data: what an extraction kernel hands back, and the buffer built
//! from it.
//!
//! Vertex components are bit patterns of single-precision values. A vertex
//! is a triple of them, a texture coordinate a pair.

use crate::error::MeshError;
use vstd::prelude::*;

verus! {

/// Bit pattern of a texture coordinate that was never assigned: zero.
pub const UNUSED_UV: (u32, u32) = (0, 0);

/// Whether an index list addresses `vertex_count` vertices as triangles:
/// three indices per triangle, each naming a vertex.
pub open spec fn indexes_triangles(indices: Seq<u32>, vertex_count: nat) -> bool {
    &&& indices.len() % 3 == 0
    &&& forall|i: int| 0 <= i < indices.len() ==> (#[trigger] indices[i]) < vertex_count
}

/// The contents of an [`ExtractedSurface`].
pub struct SurfaceView {
    pub positions: Seq<(u32, u32, u32)>,
    pub normals: Seq<(u32, u32, u32)>,
    pub indices: Seq<u32>,
}

/// The contents of a [`MeshBuffer`].
pub struct MeshView {
    pub positions: Seq<(u32, u32, u32)>,
    pub normals: Seq<(u32, u32, u32)>,
    pub uvs: Seq<(u32, u32)>,
    pub indices: Seq<u32>,
}

/// Whether a surface has one normal per vertex and a triangle index list
/// over its vertices.
pub open spec fn surface_consistent(surface: SurfaceView) -> bool {
    &&& surface.normals.len() == surface.positions.len()
    &&& indexes_triangles(surface.indices, surface.positions.len())
}

/// Whether a mesh has one normal and one texture coordinate per vertex and
/// a triangle index list, with at least one triangle, over its vertices.
pub open spec fn mesh_consistent(mesh: MeshView) -> bool {
    &&& mesh.normals.len() == mesh.positions.len()
    &&& mesh.uvs.len() == mesh.positions.len()
    &&& mesh.indices.len() > 0
    &&& indexes_triangles(mesh.indices, mesh.positions.len())
}

/// The mesh that a surface with at least one triangle becomes: its vertices,
/// normals and indices as they are, and an unused texture coordinate for
/// every vertex.
pub open spec fn assembled(surface: SurfaceView) -> MeshView {
    MeshView {
        positions: surface.positions,
        normals: surface.normals,
        uvs: Seq::new(surface.positions.len(), |i: int| UNUSED_UV),
        indices: surface.indices,
    }
}

/// What assembling `surface` returns: `EmptyResult` for a surface without
/// triangles, else the mesh [`assembled`] from it.
pub open spec fn assembly_of(surface: SurfaceView, result: Result<MeshBuffer, MeshError>) -> bool {
    if surface.indices.len() == 0 {
        result == Err::<MeshBuffer, MeshError>(MeshError::EmptyResult)
    } else {
        result matches Ok(mesh) && mesh@ == assembled(surface)
    }
}

/// Vertices, normals and triangle indices as an extraction kernel produced
/// them. May hold no triangle at all.
#[derive(Debug)]
pub struct ExtractedSurface {
    positions: Vec<(u32, u32, u32)>,
    normals: Vec<(u32, u32, u32)>,
    indices: Vec<u32>,
}

impl View for ExtractedSurface {
    type V = SurfaceView;

    closed spec fn view(&self) -> SurfaceView {
        SurfaceView {
            positions: self.positions@,
            normals: self.normals@,
            indices: self.indices@,
        }
    }
}

impl ExtractedSurface {
    #[verifier::type_invariant]
    spec fn inv(self) -> bool {
        surface_consistent(self@)
    }

    /// Takes the three lists of a kernel's output. `None` unless there is
    /// one normal per vertex, the number of indices is a multiple of three
    /// and every index names a vertex.
    pub fn new(
        positions: Vec<(u32, u32, u32)>,
        normals: Vec<(u32, u32, u32)>,
        indices: Vec<u32>,
    ) -> (surface: Option<ExtractedSurface>)
        ensures
            surface is Some <==> surface_consistent(
                SurfaceView { positions: positions@, normals: normals@, indices: indices@ },
            ),
            surface matches Some(s) ==> s@ == (SurfaceView {
                positions: positions@,
                normals: normals@,
                indices: indices@,
            }),
    {
        if normals.len() != positions.len() || indices.len() % 3 != 0 {
            return None;
        }
        let vertex_count: usize = positions.len();
        let mut i: usize = 0;
        while i < indices.len()
            invariant
                i <= indices.len(),
                vertex_count == positions@.len(),
                forall|k: int| 0 <= k < i ==> (#[trigger] indices@[k]) < vertex_count,
            decreases indices.len() - i,
        {
            if indices[i] as usize >= vertex_count {
                assert(!(indices@[i as int] < positions@.len()));
                return None;
            }
            i += 1;
        }
        Some(ExtractedSurface { positions, normals, indices })
    }

    /// Number of vertices.
    pub fn vertex_count(&self) -> (count: usize)
        ensures
            count == self@.positions.len(),
            surface_consistent(self@),
    {
        proof {
            use_type_invariant(self);
        }
        self.positions.len()
    }

    /// Whether the surface holds no triangle.
    pub fn is_empty(&self) -> (empty: bool)
        ensures
            empty == (self@.indices.len() == 0),
    {
        self.indices.len() == 0
    }
}

/// A triangle mesh ready for a renderer: vertex positions, one normal and
/// one texture coordinate per vertex, and three indices per triangle.
#[derive(Debug)]
pub struct MeshBuffer {
    positions: Vec<(u32, u32, u32)>,
    normals: Vec<(u32, u32, u32)>,
    uvs: Vec<(u32, u32)>,
    indices: Vec<u32>,
}

impl View for MeshBuffer {
    type V = MeshView;

    closed spec fn view(&self) -> MeshView {
        MeshView {
            positions: self.positions@,
            normals: self.normals@,
            uvs: self.uvs@,
            indices: self.indices@,
        }
    }
}

impl MeshBuffer {
    #[verifier::type_invariant]
    spec fn inv(self) -> bool {
        mesh_consistent(self@)
    }

    /// Builds the mesh of `surface`: `EmptyResult` if and only if the
    /// surface has no triangle; otherwise its vertices, normals and indices
    /// unchanged, with an unused texture coordinate for every vertex.
    pub fn assemble(surface: ExtractedSurface) -> (result: Result<MeshBuffer, MeshError>)
        ensures
            assembly_of(surface@, result),
            result is Err <==> surface@.indices.len() == 0,
            result matches Ok(mesh) ==> mesh_consistent(mesh@),
    {
        proof {
            use_type_invariant(&surface);
        }
        if surface.indices.len() == 0 {
            return Err(MeshError::EmptyResult);
        }
        let num_vertices: usize = surface.positions.len();
        let mut uvs: Vec<(u32, u32)> = Vec::new();
        let mut i: usize = 0;
        while i < num_vertices
            invariant
                i <= num_vertices,
                uvs@.len() == i,
                forall|k: int| 0 <= k < i ==> (#[trigger] uvs@[k]) == UNUSED_UV,
            decreases num_vertices - i,
        {
            uvs.push(UNUSED_UV);
            i += 1;
        }
        let ExtractedSurface { positions, normals, indices } = surface;
        let mesh = MeshBuffer { positions, normals, uvs, indices };
        assert(mesh@.uvs =~= assembled(surface@).uvs);
        Ok(mesh)
    }

    /// Vertex positions.
    pub fn positions(&self) -> (positions: &Vec<(u32, u32, u32)>)
        ensures
            positions@ == self@.positions,
            mesh_consistent(self@),
    {
        proof {
            use_type_invariant(self);
        }
        &self.positions
    }

    /// Vertex normals, aligned with the positions.
    pub fn normals(&self) -> (normals: &Vec<(u32, u32, u32)>)
        ensures
            normals@ == self@.normals,
            normals@.len() == self@.positions.len(),
    {
        proof {
            use_type_invariant(self);
        }
        &self.normals
    }

    /// Texture coordinates, aligned with the positions.
    pub fn uvs(&self) -> (uvs: &Vec<(u32, u32)>)
        ensures
            uvs@ == self@.uvs,
            uvs@.len() == self@.positions.len(),
    {
        proof {
            use_type_invariant(self);
        }
        &self.uvs
    }

    /// Triangle indices, three per triangle.
    pub fn indices(&self) -> (indices: &Vec<u32>)
        ensures
            indices@ == self@.indices,
            indexes_triangles(indices@, self@.positions.len()),
            indices@.len() > 0,
    {
        proof {
            use_type_invariant(self);
        }
        &self.indices
    }

    /// Number of vertices.
    pub fn vertex_count(&self) -> (count: usize)
        ensures
            count == self@.positions.len(),
    {
        self.positions.len()
    }

    /// Number of triangles.
    pub fn triangle_count(&self) -> (count: usize)
        ensures
            count == self@.indices.len() / 3,
            count >= 1,
    {
        proof {
            use_type_invariant(self);
        }
        self.indices.len() / 3
    }

    /// The three vertex positions of triangle `t`.
    pub fn triangle(&self, t: usize) -> (corners: [(u32, u32, u32); 3])
        requires
            t < self@.indices.len() / 3,
        ensures
            mesh_consistent(self@),
            corners[0] == self@.positions[self@.indices[3 * t] as int],
            corners[1] == self@.positions[self@.indices[3 * t + 1] as int],
            corners[2] == self@.positions[self@.indices[3 * t + 2] as int],
    {
        proof {
            use_type_invariant(self);
        }
        let index_count: usize = self.indices.len();
        assert(3 * t + 2 < index_count);
        let a: usize = self.indices[3 * t] as usize;
        let b: usize = self.indices[3 * t + 1] as usize;
        let c: usize = self.indices[3 * t + 2] as usize;
        [self.positions[a], self.positions[b], self.positions[c]]
    }
}

} // verus!
