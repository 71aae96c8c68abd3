//! Triangle meshes: vertex positions, optional per-vertex normals, and
//! an index list grouping every three entries into one triangle.
//!
//! Loading geometry from a file is the caller's business; the
//! constructor here validates what was read and rejects malformed
//! geometry before it can reach the fill loop.

use crate::vec4::Vec4;
use vstd::prelude::*;

verus! {

/// Why a mesh was rejected at load time.
#[derive(Clone, Copy, Debug, PartialEq, Eq, Structural)]
pub enum GeometryError {
    /// The index list does not group into whole triangles.
    IndicesNotTriples,
    /// An index points past the end of the vertex list.
    IndexOutOfRange,
    /// Normals are present but not one per vertex.
    NormalCountMismatch,
}

/// An immutable triangle mesh.
pub struct Mesh {
    pub vertices: Vec<Vec4>,
    pub normals: Vec<Vec4>,
    pub indices: Vec<usize>,
}

/// Whether every index points inside the vertex list.
pub open spec fn indices_in_range(indices: Seq<usize>, n_vertices: nat) -> bool {
    forall|j: int| 0 <= j < indices.len() ==> (indices[j] as nat) < n_vertices
}

/// Whether a normal list is valid for a vertex list: absent, or one
/// normal per vertex.
pub open spec fn normals_match(n_normals: nat, n_vertices: nat) -> bool {
    n_normals == 0 || n_normals == n_vertices
}

impl Mesh {
    /// Whether the mesh is well-formed: whole triangles, indices in
    /// range, and normals absent or parallel to the vertices.
    pub open spec fn wf(self) -> bool {
        &&& self.indices@.len() % 3 == 0
        &&& indices_in_range(self.indices@, self.vertices@.len())
        &&& normals_match(self.normals@.len(), self.vertices@.len())
    }

    /// The number of triangles.
    pub open spec fn tri_count(self) -> nat {
        self.indices@.len() / 3
    }

    /// Builds a mesh from raw geometry, rejecting malformed input: an
    /// index list that does not group into triangles, an index past the
    /// vertex list, or a normal list that is neither empty nor parallel
    /// to the vertices.
    pub fn new(vertices: Vec<Vec4>, normals: Vec<Vec4>, indices: Vec<usize>) -> (r: Result<
        Mesh,
        GeometryError,
    >)
        ensures
            r matches Ok(m) ==> {
                &&& m.vertices@ == vertices@
                &&& m.normals@ == normals@
                &&& m.indices@ == indices@
                &&& m.wf()
            },
            r == Result::<Mesh, GeometryError>::Err(GeometryError::IndicesNotTriples) <==> indices@.len() % 3 != 0,
            r == Result::<Mesh, GeometryError>::Err(GeometryError::IndexOutOfRange) <==> (
            indices@.len() % 3 == 0 && !indices_in_range(indices@, vertices@.len())),
            r == Result::<Mesh, GeometryError>::Err(GeometryError::NormalCountMismatch) <==> (
            indices@.len() % 3 == 0 && indices_in_range(indices@, vertices@.len())
                && !normals_match(normals@.len(), vertices@.len())),
            r is Ok <==> (indices@.len() % 3 == 0 && indices_in_range(indices@, vertices@.len())
                && normals_match(normals@.len(), vertices@.len())),
    {
        if indices.len() % 3 != 0 {
            return Err(GeometryError::IndicesNotTriples);
        }
        let n_vertices = vertices.len();
        let mut j: usize = 0;
        while j < indices.len()
            invariant
                j <= indices@.len(),
                forall|k: int| 0 <= k < j ==> (indices@[k] as nat) < vertices@.len(),
                n_vertices == vertices@.len(),
                indices@.len() % 3 == 0,
            decreases indices@.len() - j,
        {
            if indices[j] >= n_vertices {
                proof {
                    assert(!((indices@[j as int] as nat) < vertices@.len()));
                }
                return Err(GeometryError::IndexOutOfRange);
            }
            j = j + 1;
        }
        if !(normals.len() == 0 || normals.len() == n_vertices) {
            return Err(GeometryError::NormalCountMismatch);
        }
        Ok(Mesh { vertices, normals, indices })
    }
}

} // verus!
