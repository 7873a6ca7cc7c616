//! Euler-angle rotation, stored as thousandths of a degree per axis.

use vstd::prelude::*;

use crate::mat4::{
    lemma_mat_mul_bounded, m_in_bounds, mat_mul_spec, rotation_x_spec, rotation_y_spec,
    rotation_z_spec, Mat4,
};

verus! {

#[derive(Clone, Copy, Debug, PartialEq, Eq, Structural, Default)]
pub struct Rotation {
    pub angle_x: i64,
    pub angle_y: i64,
    pub angle_z: i64,
}

/// The composed rotation, applied in x, then y, then z order.
pub open spec fn rotation_matrix_spec(r: Rotation) -> Mat4 {
    mat_mul_spec(
        mat_mul_spec(rotation_x_spec(r.angle_x as int), rotation_y_spec(r.angle_y as int)),
        rotation_z_spec(r.angle_z as int),
    )
}

/// Every entry of a composed rotation stays small.
pub proof fn lemma_rotation_matrix_bounds(r: Rotation)
    ensures
        m_in_bounds(rotation_matrix_spec(r), 16_000),
{
    lemma_rotation_factor_bounds(r);
    assert(1000int * 1000int == 1_000_000int) by (nonlinear_arith);
    assert(4000int * 1000int == 4_000_000int) by (nonlinear_arith);
    lemma_mat_mul_bounded(
        rotation_x_spec(r.angle_x as int),
        rotation_y_spec(r.angle_y as int),
        1000,
        1000,
        4000,
    );
    assert(16_000int * 1000int == 16_000_000int) by (nonlinear_arith);
    lemma_mat_mul_bounded(
        mat_mul_spec(rotation_x_spec(r.angle_x as int), rotation_y_spec(r.angle_y as int)),
        rotation_z_spec(r.angle_z as int),
        4000,
        1000,
        16_000,
    );
}

/// Each single-axis rotation has unit-scale entries.
proof fn lemma_rotation_factor_bounds(r: Rotation)
    ensures
        m_in_bounds(rotation_x_spec(r.angle_x as int), 1000),
        m_in_bounds(rotation_y_spec(r.angle_y as int), 1000),
        m_in_bounds(rotation_z_spec(r.angle_z as int), 1000),
{
    crate::trig::lemma_sin_bounded(r.angle_x as int);
    crate::trig::lemma_sin_bounded(r.angle_x as int + 90_000);
    crate::trig::lemma_sin_bounded(r.angle_y as int);
    crate::trig::lemma_sin_bounded(r.angle_y as int + 90_000);
    crate::trig::lemma_sin_bounded(r.angle_z as int);
    crate::trig::lemma_sin_bounded(r.angle_z as int + 90_000);
}

impl Rotation {
    /// The rotation as a transform matrix, composing the three axis
    /// rotations in x, y, z order.
    pub fn rotation_matrix(&self) -> (m: Mat4)
        ensures
            m == rotation_matrix_spec(*self),
    {
        let rx = Mat4::from_rotation_x(self.angle_x);
        let ry = Mat4::from_rotation_y(self.angle_y);
        let rz = Mat4::from_rotation_z(self.angle_z);
        proof {
            assert(1000int * 1000int == 1_000_000int) by (nonlinear_arith);
            assert(4000int * 1000int == 4_000_000int) by (nonlinear_arith);
            lemma_mat_mul_bounded(
                rotation_x_spec(self.angle_x as int),
                rotation_y_spec(self.angle_y as int),
                1000,
                1000,
                4000,
            );
        }
        let xy = rx.mul(&ry);
        xy.mul(&rz)
    }
}

} // verus!
