//! A transform node: world position, non-uniform scale and Euler rotation.
//! Each node is owned by exactly one scene entity; nothing aliases it.

use vstd::prelude::*;

use crate::mat4::{
    lemma_mat_mul_bounded, m_in_bounds, mat_mul_spec, nonuniform_scale_spec, translation_spec,
    Mat4,
};
use crate::rotation::{lemma_rotation_matrix_bounds, rotation_matrix_spec, Rotation};
use crate::vec3::{in_bounds, Vec3};

verus! {

#[derive(Clone, Copy, Debug, PartialEq, Eq, Structural)]
pub struct Node3D {
    pub world_position: Vec3,
    pub scale: Vec3,
    pub rotation: Rotation,
}

/// The node's model matrix: translation, then rotation, then scale.
pub open spec fn node_transform_spec(n: Node3D) -> Mat4 {
    mat_mul_spec(
        mat_mul_spec(translation_spec(n.world_position), rotation_matrix_spec(n.rotation)),
        nonuniform_scale_spec(n.scale),
    )
}

impl Node3D {
    /// The model matrix a renderer applies to this node's vertices.
    pub fn transform(&self) -> (m: Mat4)
        requires
            in_bounds(self.world_position, 500_000_000),
            in_bounds(self.scale, 1_000_000_000),
        ensures
            m == node_transform_spec(*self),
    {
        let t = Mat4::from_translation(self.world_position);
        let r = self.rotation.rotation_matrix();
        proof {
            lemma_rotation_matrix_bounds(self.rotation);
            assert(m_in_bounds(translation_spec(self.world_position), 500_000_000));
            assert(500_000_000int * 16_000int == 8_000_000_000_000int) by (nonlinear_arith);
            assert(32_000_000_000int * 1000int == 32_000_000_000_000int) by (nonlinear_arith);
            lemma_mat_mul_bounded(
                translation_spec(self.world_position),
                rotation_matrix_spec(self.rotation),
                500_000_000,
                16_000,
                32_000_000_000,
            );
        }
        let tr = t.mul(&r);
        proof {
            assert(m_in_bounds(nonuniform_scale_spec(self.scale), 1_000_000_000));
        }
        tr.mul(&self.scale_matrix())
    }

    /// The node's scale as a diagonal matrix.
    fn scale_matrix(&self) -> (m: Mat4)
        ensures
            m == nonuniform_scale_spec(self.scale),
    {
        Mat4::from_nonuniform_scale(self.scale)
    }
}

} // verus!
