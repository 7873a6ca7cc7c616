//! The player character: a transform node and a camera, a fixed bounding
//! box re-derived at the current position for every collision test, and a
//! vertical velocity accumulator clamped at a terminal fall speed.

use vstd::prelude::*;

use crate::aabb::{box_in_bounds, box_wf, overlaps, AABBBoundingBox};
use crate::camera::{
    camera_wf, lemma_camera_basis_bounded, pitch_after, yaw_after, Camera, MOUSE_LIMIT,
    ANGLE_LIMIT,
};
use crate::fixed::{div_to_zero, fp_mul, fp_mul_spec, halve, iabs};
use crate::mat4::{look_at_spec, Mat4};
use crate::vec3::{add_v, in_bounds, scale_v, sub_v, v3_from, Vec3};

verus! {

/// Default movement speed: 20.5 units per second.
pub const SPEED: i64 = 20_500;

/// Eye height the keyboard handler pins the player to.
pub const EYE_HEIGHT: i64 = 1600;

/// Most negative vertical velocity a fall can reach.
pub const TERMINAL_VELOCITY: i64 = -55_000;

#[derive(Clone, Copy, Debug, PartialEq, Eq, Structural)]
pub enum MovementDirection {
    Forward,
    Backward,
    Left,
    Right,
    Up,
    Down,
}

#[derive(Clone, Copy, Debug, PartialEq, Eq, Structural)]
pub struct PlayerCharacter {
    pub node3d: crate::node_3d::Node3D,
    pub camera: Camera,
    pub movement_speed: i64,
    pub bounding_box: AABBBoundingBox,
    pub vertical_velocity: i64,
}

/// The fixed body box for an eye height: half a unit wide and deep,
/// `height` tall from the feet.
pub open spec fn player_box_spec(height: int) -> AABBBoundingBox {
    AABBBoundingBox {
        x_min: -250i64,
        x_max: 250i64,
        y_min: 0i64,
        y_max: height as i64,
        z_min: -250i64,
        z_max: 250i64,
    }
}

/// The body box recentered on a world position, half extents either side.
pub open spec fn translated_box_spec(b: AABBBoundingBox, pos: Vec3) -> AABBBoundingBox {
    let half_w = div_to_zero(b.x_max - b.x_min, 2);
    let half_h = div_to_zero(b.y_max - b.y_min, 2);
    let half_d = div_to_zero(b.z_max - b.z_min, 2);
    AABBBoundingBox {
        x_min: (pos.x - half_w) as i64,
        x_max: (pos.x + half_w) as i64,
        y_min: (pos.y - half_h) as i64,
        y_max: (pos.y + half_h) as i64,
        z_min: (pos.z - half_d) as i64,
        z_max: (pos.z + half_d) as i64,
    }
}

pub open spec fn half_height_spec(b: AABBBoundingBox) -> int {
    div_to_zero(b.y_max - b.y_min, 2)
}

/// Vertical velocity after an impulse, clamped at the terminal fall speed;
/// upward velocity is deliberately left unclamped.
pub open spec fn vv_after(vv: int, dv: int) -> int {
    let v = vv + dv;
    if v <= TERMINAL_VELOCITY as int {
        TERMINAL_VELOCITY as int
    } else {
        v
    }
}

/// Where one movement intent takes the player: a displacement along the
/// camera basis scaled by speed and elapsed time, with the height then
/// pinned to the eye level so horizontal keys cannot fly.
pub open spec fn keyboard_moved_spec(
    p: PlayerCharacter,
    direction: MovementDirection,
    dt: int,
) -> Vec3 {
    let vel = fp_mul_spec(p.movement_speed as int, dt);
    let pos = p.node3d.world_position;
    let moved = match direction {
        MovementDirection::Forward => add_v(pos, scale_v(p.camera.front, vel)),
        MovementDirection::Backward => sub_v(pos, scale_v(p.camera.front, vel)),
        MovementDirection::Left => sub_v(pos, scale_v(p.camera.right, vel)),
        MovementDirection::Right => add_v(pos, scale_v(p.camera.right, vel)),
        _ => pos,
    };
    v3_from(moved.x as int, EYE_HEIGHT as int, moved.z as int)
}

/// The player's invariant: a well-formed camera, an ordered body box of
/// moderate size, and a vertical velocity no worse than terminal.
pub open spec fn player_wf(p: PlayerCharacter) -> bool {
    &&& camera_wf(p.camera)
    &&& box_wf(p.bounding_box)
    &&& box_in_bounds(p.bounding_box, 100_000_000)
    &&& p.vertical_velocity >= TERMINAL_VELOCITY
    &&& 0 <= p.movement_speed <= 1_000_000
}

/// However large the impulse, the clamp never lets vertical velocity pass
/// the terminal fall speed.
pub proof fn lemma_terminal_velocity_clamp(vv: int, dv: int)
    ensures
        vv_after(vv, dv) >= TERMINAL_VELOCITY as int,
{
}

impl PlayerCharacter {
    /// A player at a node with a camera; the body box spans `height` above
    /// the feet and the fixed default width.
    pub fn new(node3d: crate::node_3d::Node3D, camera: Camera, height: i64) -> (r:
        PlayerCharacter)
        requires
            0 <= height <= 100_000_000,
        ensures
            r == (PlayerCharacter {
                node3d,
                camera,
                movement_speed: SPEED,
                bounding_box: player_box_spec(height as int),
                vertical_velocity: 0i64,
            }),
    {
        let width: i64 = 500;
        let bounding_box = AABBBoundingBox {
            x_min: -(width / 2),
            x_max: width / 2,
            y_max: height,
            y_min: 0,
            z_min: -(width / 2),
            z_max: width / 2,
        };

        PlayerCharacter {
            node3d,
            camera,
            movement_speed: SPEED,
            bounding_box,
            vertical_velocity: 0,
        }
    }

    /// The view matrix of the player's camera, anchored at the player's
    /// world position.
    pub fn get_camera_view_matrix(&self) -> (m: Mat4)
        requires
            camera_wf(self.camera),
            in_bounds(self.node3d.world_position, 200_000_000),
        ensures
            m == look_at_spec(
                add_v(self.camera.position, self.node3d.world_position),
                add_v(
                    add_v(self.camera.position, self.node3d.world_position),
                    self.camera.front,
                ),
                self.camera.up,
            ),
    {
        self.camera.get_view_matrix(self.node3d.world_position)
    }

    pub fn get_look_direction(&self) -> (r: Vec3)
        ensures
            r == self.camera.front,
    {
        self.camera.front
    }

    pub fn get_right_direction(&self) -> (r: Vec3)
        ensures
            r == self.camera.right,
    {
        self.camera.right
    }

    /// One movement intent: displace along the camera basis and pin the
    /// height back to eye level.
    pub fn process_keyboard(&mut self, direction: MovementDirection, dt: i64)
        requires
            camera_wf(old(self).camera),
            0 <= old(self).movement_speed <= 1_000_000,
            0 <= dt <= 1_000_000,
            in_bounds(old(self).node3d.world_position, 1_000_000_000_000_000),
        ensures
            *final(self) == (PlayerCharacter {
                node3d: crate::node_3d::Node3D {
                    world_position: keyboard_moved_spec(*old(self), direction, dt as int),
                    ..old(self).node3d
                },
                ..*old(self)
            }),
    {
        proof {
            lemma_camera_basis_bounded(self.camera);
            crate::vec3::lemma_mul_bound(
                self.movement_speed as int,
                dt as int,
                1_000_000,
                1_000_000,
            );
            assert(1_000_000int * 1_000_000int == 1_000_000_000_000int) by (nonlinear_arith);
            assert(1000int * 0x7fff_ffff_ffff_ffffint == 9_223_372_036_854_775_807_000int)
                by (nonlinear_arith);
            assert(1_000_000_000int * 1000int == 1_000_000_000_000int) by (nonlinear_arith);
            crate::fixed::lemma_div_to_zero_le(
                self.movement_speed as int * dt as int,
                1000,
                1_000_000_000,
            );
        }
        let velocity = fp_mul(self.movement_speed, dt);
        proof {
            lemma_scaled_step_fits(self.camera.front, velocity as int);
            lemma_scaled_step_fits(self.camera.right, velocity as int);
        }
        match direction {
            MovementDirection::Forward => {
                let step = self.camera.front.scaled(velocity);
                self.node3d.world_position = self.node3d.world_position.add(step);
            },
            MovementDirection::Backward => {
                let step = self.camera.front.scaled(velocity);
                self.node3d.world_position = self.node3d.world_position.sub(step);
            },
            MovementDirection::Left => {
                let step = self.camera.right.scaled(velocity);
                self.node3d.world_position = self.node3d.world_position.sub(step);
            },
            MovementDirection::Right => {
                let step = self.camera.right.scaled(velocity);
                self.node3d.world_position = self.node3d.world_position.add(step);
            },
            _ => (),
        }

        self.node3d.world_position.y = EYE_HEIGHT;
    }

    /// Forward a mouse delta to the camera's look handler.
    pub fn process_mouse_movement(&mut self, x_offset: i64, y_offset: i64, constrain_pitch: bool)
        requires
            camera_wf(old(self).camera),
            iabs(x_offset as int) <= MOUSE_LIMIT as int,
            iabs(y_offset as int) <= MOUSE_LIMIT as int,
            iabs(old(self).camera.yaw as int) + 100_000_000 <= ANGLE_LIMIT as int,
            iabs(old(self).camera.pitch as int) + 100_000_000 <= ANGLE_LIMIT as int,
        ensures
            camera_wf(final(self).camera),
            final(self).camera.yaw as int == yaw_after(
                old(self).camera.yaw as int,
                old(self).camera.mouse_sensitivity as int,
                x_offset as int,
            ),
            final(self).camera.pitch as int == pitch_after(
                old(self).camera.pitch as int,
                old(self).camera.mouse_sensitivity as int,
                y_offset as int,
                constrain_pitch,
            ),
            final(self).camera.position == old(self).camera.position,
            final(self).camera.world_up == old(self).camera.world_up,
            final(self).camera.mouse_sensitivity == old(self).camera.mouse_sensitivity,
            final(self).camera.zoom == old(self).camera.zoom,
            final(self).camera.height == old(self).camera.height,
            final(self).node3d == old(self).node3d,
            final(self).movement_speed == old(self).movement_speed,
            final(self).bounding_box == old(self).bounding_box,
            final(self).vertical_velocity == old(self).vertical_velocity,
    {
        self.camera.process_mouse_movement(x_offset, y_offset, constrain_pitch);
    }

    pub fn get_camera_zoom(&self) -> (r: i64)
        ensures
            r == self.camera.zoom,
    {
        self.camera.zoom
    }

    pub fn get_position(&self) -> (r: Vec3)
        ensures
            r == self.node3d.world_position,
    {
        self.node3d.world_position
    }

    pub fn set_position(&mut self, x: i64, y: i64, z: i64)
        ensures
            *final(self) == (PlayerCharacter {
                node3d: crate::node_3d::Node3D {
                    world_position: Vec3 { x, y, z },
                    ..old(self).node3d
                },
                ..*old(self)
            }),
    {
        self.node3d.world_position.x = x;
        self.node3d.world_position.y = y;
        self.node3d.world_position.z = z;
    }

    /// Whether the body box, recentered on the current position, overlaps
    /// the given box.
    pub fn check_collision(&self, bounding_box: AABBBoundingBox) -> (r: bool)
        requires
            box_in_bounds(self.bounding_box, 100_000_000),
            in_bounds(self.node3d.world_position, 1_000_000_000_000),
        ensures
            r == overlaps(
                translated_box_spec(self.bounding_box, self.node3d.world_position),
                bounding_box,
            ),
    {
        let bounding_box_translated = self.get_bounding_box_translated();
        bounding_box_translated.collides_with(bounding_box)
    }

    /// The fixed body box recentered on the current world position; never
    /// persisted in translated form.
    fn get_bounding_box_translated(&self) -> (r: AABBBoundingBox)
        requires
            box_in_bounds(self.bounding_box, 100_000_000),
            in_bounds(self.node3d.world_position, 1_000_000_000_000),
        ensures
            r == translated_box_spec(self.bounding_box, self.node3d.world_position),
    {
        let b = self.bounding_box;
        let half_width = halve(b.x_max - b.x_min);
        let half_height = halve(b.y_max - b.y_min);
        let half_depth = halve(b.z_max - b.z_min);
        proof {
            crate::fixed::lemma_div_to_zero_bound(b.x_max as int - b.x_min as int, 2);
            crate::fixed::lemma_div_to_zero_bound(b.y_max as int - b.y_min as int, 2);
            crate::fixed::lemma_div_to_zero_bound(b.z_max as int - b.z_min as int, 2);
        }
        let pos = self.node3d.world_position;
        AABBBoundingBox {
            x_min: pos.x - half_width,
            x_max: pos.x + half_width,
            y_min: pos.y - half_height,
            y_max: pos.y + half_height,
            z_min: pos.z - half_depth,
            z_max: pos.z + half_depth,
        }
    }

    /// Add a vertical impulse; a fall is clamped at the terminal speed.
    pub fn add_vertical_velocity(&mut self, velocity: i64)
        requires
            iabs(old(self).vertical_velocity as int) <= 2_000_000_000_000,
            iabs(velocity as int) <= 2_000_000_000_000,
        ensures
            final(self).vertical_velocity as int == vv_after(
                old(self).vertical_velocity as int,
                velocity as int,
            ),
            final(self).vertical_velocity >= TERMINAL_VELOCITY,
            *final(self) == (PlayerCharacter {
                vertical_velocity: final(self).vertical_velocity,
                ..*old(self)
            }),
    {
        self.vertical_velocity = self.vertical_velocity + velocity;
        if self.vertical_velocity <= TERMINAL_VELOCITY {
            self.vertical_velocity = TERMINAL_VELOCITY;
        }
    }

    pub fn get_vertical_velocity(&self) -> (r: i64)
        ensures
            r == self.vertical_velocity,
    {
        self.vertical_velocity
    }

    pub fn reset_vertical_velocity(&mut self)
        ensures
            *final(self) == (PlayerCharacter { vertical_velocity: 0i64, ..*old(self) }),
    {
        self.vertical_velocity = 0;
    }

    /// Half the body box's vertical extent.
    pub fn get_half_height(&self) -> (r: i64)
        requires
            box_in_bounds(self.bounding_box, 100_000_000),
        ensures
            r as int == half_height_spec(self.bounding_box),
    {
        halve(self.bounding_box.y_max - self.bounding_box.y_min)
    }
}

/// A movement intent changes each coordinate by at most the frame's
/// velocity, so positions grow slowly.
pub proof fn lemma_keyboard_moved_bounded(
    p: PlayerCharacter,
    direction: MovementDirection,
    dt: int,
    limit: int,
)
    requires
        camera_wf(p.camera),
        0 <= p.movement_speed <= 1_000_000,
        0 <= dt <= 1_000_000,
        0 <= limit <= 1_000_000_000_000_000,
        in_bounds(p.node3d.world_position, limit),
    ensures
        in_bounds(keyboard_moved_spec(p, direction, dt), limit + 1_000_000_000),
{
    lemma_camera_basis_bounded(p.camera);
    crate::vec3::lemma_mul_bound(p.movement_speed as int, dt, 1_000_000, 1_000_000);
    assert(1_000_000int * 1_000_000int == 1_000_000_000_000int) by (nonlinear_arith);
    assert(1_000_000_000int * 1000int == 1_000_000_000_000int) by (nonlinear_arith);
    crate::fixed::lemma_div_to_zero_le(p.movement_speed as int * dt, 1000, 1_000_000_000);
    let vel = fp_mul_spec(p.movement_speed as int, dt);
    lemma_scaled_step_fits(p.camera.front, vel);
    lemma_scaled_step_fits(p.camera.right, vel);
}

/// A movement step scaled from a unit-scale direction fits comfortably.
pub proof fn lemma_scaled_step_fits(direction: Vec3, vel: int)
    requires
        in_bounds(direction, 1000),
        iabs(vel) <= 1_000_000_000,
    ensures
        iabs(direction.x * vel) <= 1_000_000_000_000,
        iabs(direction.y * vel) <= 1_000_000_000_000,
        iabs(direction.z * vel) <= 1_000_000_000_000,
        iabs(fp_mul_spec(direction.x as int, vel)) <= 1_000_000_000,
        iabs(fp_mul_spec(direction.y as int, vel)) <= 1_000_000_000,
        iabs(fp_mul_spec(direction.z as int, vel)) <= 1_000_000_000,
{
    crate::vec3::lemma_mul_bound(direction.x as int, vel, 1000, 1_000_000_000);
    crate::vec3::lemma_mul_bound(direction.y as int, vel, 1000, 1_000_000_000);
    crate::vec3::lemma_mul_bound(direction.z as int, vel, 1000, 1_000_000_000);
    assert(1000int * 1_000_000_000int == 1_000_000_000_000int) by (nonlinear_arith);
    assert(1_000_000_000int * 1000int == 1_000_000_000_000int) by (nonlinear_arith);
    crate::fixed::lemma_div_to_zero_le(direction.x as int * vel, 1000, 1_000_000_000);
    crate::fixed::lemma_div_to_zero_le(direction.y as int * vel, 1000, 1_000_000_000);
    crate::fixed::lemma_div_to_zero_le(direction.z as int * vel, 1000, 1_000_000_000);
}

} // verus!
