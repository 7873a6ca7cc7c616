//! Static scenery: a transform node, a shared immutable model (held by
//! handle, so many bodies may reference one model), and a collision box.

use vstd::prelude::*;

use crate::aabb::AABBBoundingBox;
use crate::mat4::Mat4;
use crate::node_3d::{node_transform_spec, Node3D};
use crate::vec3::in_bounds;

verus! {

/// A handle to a model asset loaded by the renderer.  Copying the handle
/// shares the model; the asset itself is immutable after load.
#[derive(Clone, Copy, Debug, PartialEq, Eq, Structural)]
pub struct ModelHandle {
    pub id: usize,
}

#[derive(Clone, Copy, Debug, PartialEq, Eq, Structural)]
pub struct StaticBody3D {
    pub node3d: Node3D,
    pub model: ModelHandle,
    pub bounding_box: AABBBoundingBox,
}

impl StaticBody3D {
    /// The model matrix this body is drawn under: its own node's transform,
    /// independent of every other body sharing the model.
    pub fn model_matrix(&self) -> (m: Mat4)
        requires
            in_bounds(self.node3d.world_position, 500_000_000),
            in_bounds(self.node3d.scale, 1_000_000_000),
        ensures
            m == node_transform_spec(self.node3d),
    {
        self.node3d.transform()
    }
}

} // verus!
