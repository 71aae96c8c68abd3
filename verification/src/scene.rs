//! The scene: a mesh arena, the objects that reference it, and one
//! camera.

use crate::camera::Camera;
use crate::game_object::GameObject;
use crate::mesh::Mesh;
use vstd::prelude::*;

verus! {

/// A flat scene: meshes indexed by position, objects holding a mesh
/// handle and a pose, and exactly one camera. Objects are rendered in
/// list order; within an object, triangles in index order.
pub struct Scene {
    pub meshes: Vec<Mesh>,
    pub objects: Vec<GameObject>,
    pub camera: Camera,
}

impl Scene {
    /// Whether every object's mesh handle points into the mesh list and
    /// every mesh is well-formed.
    pub open spec fn wf(self) -> bool {
        &&& forall|i: int|
            0 <= i < self.objects@.len() ==> (self.objects@[i].object_id as nat)
                < self.meshes@.len()
        &&& forall|i: int| 0 <= i < self.meshes@.len() ==> (#[trigger] self.meshes@[i]).wf()
    }

    pub fn new(meshes: Vec<Mesh>, objects: Vec<GameObject>, camera: Camera) -> (s: Self)
        ensures
            s.meshes@ == meshes@,
            s.objects@ == objects@,
            s.camera == camera,
    {
        Self { meshes, objects, camera }
    }
}

} // verus!
