//! Scene objects: a mesh handle plus an independent pose.

use crate::matrices::ModelMatrix;
use vstd::prelude::*;

verus! {

/// One object in the scene: the position of its mesh in the scene's
/// mesh list, and its own model transform. Mesh geometry is shared and
/// read-only; the pose is the object's own.
pub struct GameObject {
    pub object_id: usize,
    pub model_matrix: ModelMatrix,
}

impl GameObject {
    pub fn new(object_id: usize, model_matrix: ModelMatrix) -> (o: Self)
        ensures
            o.object_id == object_id,
            o.model_matrix == model_matrix,
    {
        Self { object_id, model_matrix }
    }
}

} // verus!
