//! First-person camera: yaw/pitch orientation, an always re-derived
//! orthonormal basis, mouse-look with a pitch clamp, and a zoom clamp used
//! as the field of view.
//!
//! Angles are thousandths of a degree; directions are unit-scale vectors
//! (thousandths of a unit vector).

use vstd::prelude::*;

use crate::fixed::{fp_mul, fp_mul_spec, iabs};
use crate::mat4::{look_at, look_at_spec, Mat4};
use crate::trig::{cos_deg, cos_spec, sin_deg, sin_spec};
use crate::vec3::{
    add_v, cross_v, in_bounds, lemma_mul_bound, norm_sq_spec, norm_v, v3_from, Vec3,
};

verus! {

/// Default yaw: facing the negative z axis.
pub const YAW: i64 = -90_000;

/// Default pitch: level with the horizon.
pub const PITCH: i64 = 0;

/// Default mouse sensitivity: a tenth of a degree per count.
pub const SENSITIVITY: i64 = 100;

/// Default zoom (field of view) at construction.
pub const ZOOM: i64 = 70_000;

/// Headroom bound on stored angles; far beyond any real session, it merely
/// keeps the additions below off the `i64` edge.
pub const ANGLE_LIMIT: i64 = 4_000_000_000_000;

/// Largest mouse offset accepted per event.
pub const MOUSE_LIMIT: i64 = 10_000_000;

#[derive(Clone, Copy, Debug, PartialEq, Eq, Structural)]
pub struct Camera {
    pub position: Vec3,
    pub front: Vec3,
    pub up: Vec3,
    pub right: Vec3,
    pub world_up: Vec3,
    pub yaw: i64,
    pub pitch: i64,
    pub mouse_sensitivity: i64,
    pub zoom: i64,
    pub height: i64,
}

/// The view direction a yaw and pitch point at, before normalization.
pub open spec fn front_raw_spec(yaw: int, pitch: int) -> Vec3 {
    v3_from(
        fp_mul_spec(cos_spec(yaw), cos_spec(pitch)),
        sin_spec(pitch),
        fp_mul_spec(sin_spec(yaw), cos_spec(pitch)),
    )
}

pub open spec fn front_spec(yaw: int, pitch: int) -> Vec3 {
    norm_v(front_raw_spec(yaw, pitch))
}

pub open spec fn right_spec(yaw: int, pitch: int, world_up: Vec3) -> Vec3 {
    norm_v(cross_v(front_spec(yaw, pitch), world_up))
}

pub open spec fn up_spec(yaw: int, pitch: int, world_up: Vec3) -> Vec3 {
    norm_v(cross_v(right_spec(yaw, pitch, world_up), front_spec(yaw, pitch)))
}

/// Clamp to an inclusive range, upper bound first, as the mouse handler
/// applies it.
pub open spec fn clamp_spec(v: int, lo: int, hi: int) -> int {
    if v > hi {
        hi
    } else if v < lo {
        lo
    } else {
        v
    }
}

/// Yaw after one mouse event.
pub open spec fn yaw_after(yaw: int, sens: int, dx: int) -> int {
    yaw + fp_mul_spec(dx, sens)
}

/// Pitch after one mouse event, clamped to 89 degrees when constrained.
pub open spec fn pitch_after(pitch: int, sens: int, dy: int, constrain: bool) -> int {
    let p = pitch + fp_mul_spec(dy, sens);
    if constrain {
        clamp_spec(p, -89_000, 89_000)
    } else {
        p
    }
}

/// Zoom after one scroll event, clamped to the 1 to 45 degree window.
pub open spec fn zoom_after(zoom: int, dy: int) -> int {
    clamp_spec(zoom - dy, 1000, 45_000)
}

/// The camera's invariant: its basis is the one its yaw and pitch
/// determine, and its scalars have the headroom the arithmetic needs.
pub open spec fn camera_wf(c: Camera) -> bool {
    &&& c.front == front_spec(c.yaw as int, c.pitch as int)
    &&& c.right == right_spec(c.yaw as int, c.pitch as int, c.world_up)
    &&& c.up == up_spec(c.yaw as int, c.pitch as int, c.world_up)
    &&& in_bounds(c.world_up, 500_000)
    &&& in_bounds(c.position, 200_000_000)
    &&& iabs(c.yaw as int) <= ANGLE_LIMIT as int
    &&& iabs(c.pitch as int) <= ANGLE_LIMIT as int
    &&& 0 <= c.mouse_sensitivity <= 10_000
    &&& 1000 <= c.zoom <= 90_000
}

impl Camera {
    /// Build a camera from a position, a world-up direction and a starting
    /// orientation; sensitivity and zoom take their fixed defaults.
    pub fn from_vec3(position: Vec3, up: Vec3, yaw: i64, pitch: i64) -> (r: Camera)
        requires
            in_bounds(position, 200_000_000),
            in_bounds(up, 500_000),
            iabs(yaw as int) <= ANGLE_LIMIT as int,
            iabs(pitch as int) <= ANGLE_LIMIT as int,
        ensures
            camera_wf(r),
            r.position == position,
            r.world_up == up,
            r.yaw == yaw,
            r.pitch == pitch,
            r.mouse_sensitivity == SENSITIVITY,
            r.zoom == ZOOM,
            r.height == position.y,
    {
        let mut camera = Camera {
            position,
            world_up: up,
            yaw,
            pitch,
            front: Vec3 { x: 0, y: 0, z: -1000 },
            mouse_sensitivity: SENSITIVITY,
            zoom: ZOOM,
            up: Vec3 { x: 0, y: 0, z: 0 },
            right: Vec3 { x: 0, y: 0, z: 0 },
            height: position.y,
        };
        camera.update_camera_vectors();
        camera
    }

    /// The look-at matrix from this camera's eye, anchored at a world
    /// position (the owning entity's location).
    pub fn get_view_matrix(&self, world_position: Vec3) -> (m: Mat4)
        requires
            camera_wf(*self),
            in_bounds(world_position, 200_000_000),
        ensures
            m == look_at_spec(
                add_v(self.position, world_position),
                add_v(add_v(self.position, world_position), self.front),
                self.up,
            ),
    {
        proof {
            lemma_camera_basis_bounded(*self);
        }
        let eye = self.position.add(world_position);
        let at = eye.add(self.front);
        look_at(eye, at, self.up)
    }

    /// Turn by a mouse delta: yaw and pitch each move by the offset scaled
    /// by the sensitivity; pitch is clamped when constrained; the basis is
    /// re-derived.
    pub fn process_mouse_movement(&mut self, x_offset: i64, y_offset: i64, constrain_pitch: bool)
        requires
            camera_wf(*old(self)),
            iabs(x_offset as int) <= MOUSE_LIMIT as int,
            iabs(y_offset as int) <= MOUSE_LIMIT as int,
            iabs(old(self).yaw as int) + 100_000_000 <= ANGLE_LIMIT as int,
            iabs(old(self).pitch as int) + 100_000_000 <= ANGLE_LIMIT as int,
        ensures
            camera_wf(*final(self)),
            final(self).yaw as int == yaw_after(
                old(self).yaw as int,
                old(self).mouse_sensitivity as int,
                x_offset as int,
            ),
            final(self).pitch as int == pitch_after(
                old(self).pitch as int,
                old(self).mouse_sensitivity as int,
                y_offset as int,
                constrain_pitch,
            ),
            final(self).position == old(self).position,
            final(self).world_up == old(self).world_up,
            final(self).mouse_sensitivity == old(self).mouse_sensitivity,
            final(self).zoom == old(self).zoom,
            final(self).height == old(self).height,
    {
        proof {
            lemma_mul_bound(
                x_offset as int,
                self.mouse_sensitivity as int,
                MOUSE_LIMIT as int,
                10_000,
            );
            lemma_mul_bound(
                y_offset as int,
                self.mouse_sensitivity as int,
                MOUSE_LIMIT as int,
                10_000,
            );
            assert((MOUSE_LIMIT as int) * 10_000int == 100_000_000_000int) by (nonlinear_arith);
            assert(1000int * 0x7fff_ffff_ffff_ffffint == 9_223_372_036_854_775_807_000int)
                by (nonlinear_arith);
            crate::fixed::lemma_div_to_zero_le(
                x_offset as int * self.mouse_sensitivity as int,
                1000,
                100_000_000,
            );
            crate::fixed::lemma_div_to_zero_le(
                y_offset as int * self.mouse_sensitivity as int,
                1000,
                100_000_000,
            );
            assert(100_000_000int * 1000int == 100_000_000_000int) by (nonlinear_arith);
        }
        self.yaw = self.yaw + fp_mul(x_offset, self.mouse_sensitivity);
        self.pitch = self.pitch + fp_mul(y_offset, self.mouse_sensitivity);

        if constrain_pitch {
            if self.pitch > 89_000 {
                self.pitch = 89_000;
            }
            if self.pitch < -89_000 {
                self.pitch = -89_000;
            }
        }

        self.update_camera_vectors();
    }

    /// Narrow or widen the field of view, clamped to 1 through 45 degrees.
    pub fn process_mouse_scroll(&mut self, y_offset: i64)
        requires
            1000 <= old(self).zoom <= 90_000,
            iabs(y_offset as int) <= 1_000_000_000_000,
        ensures
            final(self).zoom as int == zoom_after(old(self).zoom as int, y_offset as int),
            *final(self) == (Camera { zoom: final(self).zoom, ..*old(self) }),
    {
        self.zoom = self.zoom - y_offset;

        if self.zoom < 1000 {
            self.zoom = 1000;
        }
        if self.zoom > 45_000 {
            self.zoom = 45_000;
        }
    }

    /// Re-derive the orthonormal basis from yaw and pitch: the spherical
    /// front direction, then right and up from cross products with the
    /// world-up reference.
    fn update_camera_vectors(&mut self)
        requires
            in_bounds(old(self).world_up, 500_000),
        ensures
            final(self).front == front_spec(old(self).yaw as int, old(self).pitch as int),
            final(self).right == right_spec(
                old(self).yaw as int,
                old(self).pitch as int,
                old(self).world_up,
            ),
            final(self).up == up_spec(
                old(self).yaw as int,
                old(self).pitch as int,
                old(self).world_up,
            ),
            *final(self) == (Camera {
                front: final(self).front,
                right: final(self).right,
                up: final(self).up,
                ..*old(self)
            }),
    {
        let cy = cos_deg(self.yaw);
        let sy = sin_deg(self.yaw);
        let cp = cos_deg(self.pitch);
        let sp = sin_deg(self.pitch);
        proof {
            lemma_mul_bound(cy as int, cp as int, 1000, 1000);
            lemma_mul_bound(sy as int, cp as int, 1000, 1000);
            assert(1000int * 1000int == 1_000_000int) by (nonlinear_arith);
            assert(1000int * 0x7fff_ffff_ffff_ffffint == 9_223_372_036_854_775_807_000int)
                by (nonlinear_arith);
            crate::fixed::lemma_div_to_zero_bound(cy as int * cp as int, 1000);
            crate::fixed::lemma_div_to_zero_bound(sy as int * cp as int, 1000);
        }
        let raw = Vec3 { x: fp_mul(cy, cp), y: sp, z: fp_mul(sy, cp) };
        proof {
            assert(raw == front_raw_spec(self.yaw as int, self.pitch as int));
        }
        let front = raw.normalized();
        self.front = front;

        let swing = self.front.cross(self.world_up);
        proof {
            lemma_mul_bound(front.y as int, self.world_up.z as int, 1000, 500_000);
            lemma_mul_bound(front.z as int, self.world_up.y as int, 1000, 500_000);
            lemma_mul_bound(front.z as int, self.world_up.x as int, 1000, 500_000);
            lemma_mul_bound(front.x as int, self.world_up.z as int, 1000, 500_000);
            lemma_mul_bound(front.x as int, self.world_up.y as int, 1000, 500_000);
            lemma_mul_bound(front.y as int, self.world_up.x as int, 1000, 500_000);
            assert(1000int * 500_000int == 500_000_000int) by (nonlinear_arith);
        }
        let right = swing.normalized();
        self.right = right;

        let lift = self.right.cross(self.front);
        proof {
            lemma_mul_bound(right.y as int, front.z as int, 1000, 1000);
            lemma_mul_bound(right.z as int, front.y as int, 1000, 1000);
            lemma_mul_bound(right.z as int, front.x as int, 1000, 1000);
            lemma_mul_bound(right.x as int, front.z as int, 1000, 1000);
            lemma_mul_bound(right.x as int, front.y as int, 1000, 1000);
            lemma_mul_bound(right.y as int, front.x as int, 1000, 1000);
        }
        self.up = lift.normalized();
    }
}

/// A well-formed camera's basis vectors all stay within the unit scale.
pub proof fn lemma_camera_basis_bounded(c: Camera)
    requires
        camera_wf(c),
    ensures
        in_bounds(c.front, 1000),
        in_bounds(c.right, 1000),
        in_bounds(c.up, 1000),
{
    crate::vec3::lemma_normalized_bounds(front_raw_spec(c.yaw as int, c.pitch as int));
    crate::vec3::lemma_normalized_bounds(
        cross_v(front_spec(c.yaw as int, c.pitch as int), c.world_up),
    );
    crate::vec3::lemma_normalized_bounds(
        cross_v(
            right_spec(c.yaw as int, c.pitch as int, c.world_up),
            front_spec(c.yaw as int, c.pitch as int),
        ),
    );
}

/// The spherical view direction is never the zero vector: its sine and
/// cosine pairs cannot all be small at once, so at least one component
/// survives the fixed-point rescaling.
pub proof fn lemma_front_raw_nonzero(yaw: int, pitch: int)
    ensures
        norm_sq_spec(front_raw_spec(yaw, pitch)) >= 1,
{
    let sp = sin_spec(pitch);
    let cp = cos_spec(pitch);
    let sy = sin_spec(yaw);
    let cy = cos_spec(yaw);
    crate::trig::lemma_sin_bounded(pitch);
    crate::trig::lemma_sin_bounded(pitch + 90_000);
    crate::trig::lemma_sin_bounded(yaw);
    crate::trig::lemma_sin_bounded(yaw + 90_000);
    lemma_mul_bound(cy, cp, 1000, 1000);
    lemma_mul_bound(sy, cp, 1000, 1000);
    assert(1000int * 1000int == 1_000_000int) by (nonlinear_arith);
    crate::fixed::lemma_div_to_zero_bound(cy * cp, 1000);
    crate::fixed::lemma_div_to_zero_bound(sy * cp, 1000);
    let raw = front_raw_spec(yaw, pitch);
    assert(raw.y as int == sp);
    if iabs(sp) >= 1 {
        crate::vec3::lemma_some_component_unit(raw);
    } else {
        crate::trig::lemma_small_sin_large_cos(pitch);
        crate::fixed::lemma_abs_mul(sy, cp);
        crate::fixed::lemma_abs_mul(cy, cp);
        if iabs(sy) >= 2 {
            assert(iabs(sy) * iabs(cp) >= 1998) by (nonlinear_arith)
                requires
                    iabs(sy) >= 2,
                    iabs(cp) >= 999,
            ;
            crate::fixed::lemma_div_to_zero_ge(sy * cp, 1000, 1);
            assert(iabs(raw.z as int) >= 1);
            crate::vec3::lemma_some_component_unit(raw);
        } else {
            crate::trig::lemma_small_sin_large_cos(yaw);
            assert(iabs(cy) * iabs(cp) >= 998_001) by (nonlinear_arith)
                requires
                    iabs(cy) >= 999,
                    iabs(cp) >= 999,
            ;
            crate::fixed::lemma_div_to_zero_ge(cy * cp, 1000, 1);
            assert(iabs(raw.x as int) >= 1);
            crate::vec3::lemma_some_component_unit(raw);
        }
    }
}

/// Law: each basis vector of a well-formed camera is unit length within the
/// fixed-point tolerance, whenever the vector it was normalized from was not
/// the zero vector (the degenerate pole case the pitch clamp exists to
/// avoid).
pub proof fn lemma_camera_basis_near_unit(c: Camera)
    requires
        camera_wf(c),
    ensures
        993_998 <= norm_sq_spec(c.front),
        norm_sq_spec(cross_v(front_spec(c.yaw as int, c.pitch as int), c.world_up)) >= 1
            ==> 993_998 <= norm_sq_spec(c.right),
        norm_sq_spec(
            cross_v(
                right_spec(c.yaw as int, c.pitch as int, c.world_up),
                front_spec(c.yaw as int, c.pitch as int),
            ),
        ) >= 1 ==> 993_998 <= norm_sq_spec(c.up),
{
    let yaw = c.yaw as int;
    let pitch = c.pitch as int;
    crate::trig::lemma_sin_bounded(yaw);
    crate::trig::lemma_sin_bounded(yaw + 90_000);
    crate::trig::lemma_sin_bounded(pitch);
    crate::trig::lemma_sin_bounded(pitch + 90_000);
    lemma_mul_bound(cos_spec(yaw), cos_spec(pitch), 1000, 1000);
    lemma_mul_bound(sin_spec(yaw), cos_spec(pitch), 1000, 1000);
    assert(1000int * 1000int == 1_000_000int) by (nonlinear_arith);
    crate::fixed::lemma_div_to_zero_bound(cos_spec(yaw) * cos_spec(pitch), 1000);
    crate::fixed::lemma_div_to_zero_bound(sin_spec(yaw) * cos_spec(pitch), 1000);
    let raw = front_raw_spec(yaw, pitch);
    assert(crate::vec3::in_bounds(raw, crate::vec3::COORD_LIMIT as int));
    lemma_front_raw_nonzero(yaw, pitch);
    crate::vec3::lemma_normalized_near_unit(raw);
    crate::vec3::lemma_normalized_bounds(raw);
    let f = front_spec(yaw, pitch);
    lemma_mul_bound(f.y as int, c.world_up.z as int, 1000, 500_000);
    lemma_mul_bound(f.z as int, c.world_up.y as int, 1000, 500_000);
    lemma_mul_bound(f.z as int, c.world_up.x as int, 1000, 500_000);
    lemma_mul_bound(f.x as int, c.world_up.z as int, 1000, 500_000);
    lemma_mul_bound(f.x as int, c.world_up.y as int, 1000, 500_000);
    lemma_mul_bound(f.y as int, c.world_up.x as int, 1000, 500_000);
    assert(1000int * 500_000int == 500_000_000int) by (nonlinear_arith);
    let swing = cross_v(f, c.world_up);
    assert(crate::vec3::in_bounds(swing, crate::vec3::COORD_LIMIT as int));
    if norm_sq_spec(swing) >= 1 {
        crate::vec3::lemma_normalized_near_unit(swing);
    }
    crate::vec3::lemma_normalized_bounds(swing);
    let r = right_spec(yaw, pitch, c.world_up);
    lemma_mul_bound(r.y as int, f.z as int, 1000, 1000);
    lemma_mul_bound(r.z as int, f.y as int, 1000, 1000);
    lemma_mul_bound(r.z as int, f.x as int, 1000, 1000);
    lemma_mul_bound(r.x as int, f.z as int, 1000, 1000);
    lemma_mul_bound(r.x as int, f.y as int, 1000, 1000);
    lemma_mul_bound(r.y as int, f.x as int, 1000, 1000);
    let lift = cross_v(r, f);
    assert(crate::vec3::in_bounds(lift, crate::vec3::COORD_LIMIT as int));
    if norm_sq_spec(lift) >= 1 {
        crate::vec3::lemma_normalized_near_unit(lift);
    }
}

/// A constrained mouse event always leaves pitch within the 89 degree
/// window, whatever the offset.
pub proof fn lemma_pitch_clamped(pitch: int, sens: int, dy: int)
    ensures
        -89_000 <= pitch_after(pitch, sens, dy, true) <= 89_000,
{
}

/// Two large constrained upward mouse events drive pitch to exactly 89
/// degrees, never beyond, from anywhere in the clamped window.
pub proof fn lemma_pitch_saturates(pitch: int)
    requires
        -89_000 <= pitch <= 89_000,
    ensures
        pitch_after(pitch, 100, 1_000_000, true) >= 11_000,
        pitch_after(pitch_after(pitch, 100, 1_000_000, true), 100, 1_000_000, true) == 89_000,
{
    assert(1_000_000int * 100int == 100_000_000int) by (nonlinear_arith);
    assert(1000int * 100_000int == 100_000_000int) by (nonlinear_arith);
    vstd::arithmetic::div_mod::lemma_div_multiples_vanish(100_000, 1000);
    assert(fp_mul_spec(1_000_000, 100) == 100_000);
}

/// A scroll event always leaves zoom within the 1 to 45 degree window,
/// whatever the offset.
pub proof fn lemma_zoom_clamped(zoom: int, dy: int)
    ensures
        1000 <= zoom_after(zoom, dy) <= 45_000,
{
}

} // verus!
