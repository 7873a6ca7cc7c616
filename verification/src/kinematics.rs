//! Decisions of the physics-delegated movement strategy.
//!
//! In this strategy the player is a kinematic body in an external
//! rigid-body world, and movement is resolved by that world's character
//! controller, which slides a desired movement along colliding geometry.
//! The embedding loop owns the world: each frame it asks
//! [`desired_kinematic_movement`] what to request, hands that to the
//! external controller together with the collider sets, and mirrors the
//! corrected result back into the player with [`apply_corrected_movement`].
//! The alternative, self-contained strategy is [`crate::scene::Scene::update`];
//! the embedding loop picks one of the two when it builds the scene.

use vstd::prelude::*;

use crate::node_3d::Node3D;
use crate::player_character::PlayerCharacter;
use crate::scene::InputState;
use crate::vec3::{add_v, in_bounds, scale_v, v3_from, Vec3};

verus! {

/// Constant downward bias subtracted from every desired movement; it nudges
/// the external controller's ground-snapping heuristic.
pub const DOWN_BIAS: i64 = 50;

/// The movement to request from the external character controller: forward
/// or back along the view direction, scaled by the frame's fixed step, less
/// the downward bias.
pub open spec fn desired_kinematic_spec(front: Vec3, keys: InputState, step: int) -> Vec3 {
    let ahead = if keys.forward {
        scale_v(front, step)
    } else if keys.backward {
        scale_v(front, -step)
    } else {
        v3_from(0, 0, 0)
    };
    v3_from(ahead.x as int, ahead.y - DOWN_BIAS, ahead.z as int)
}

pub fn desired_kinematic_movement(front: Vec3, keys: &InputState, step: i64) -> (r: Vec3)
    requires
        in_bounds(front, 1000),
        0 <= step <= 1_000_000_000,
    ensures
        r == desired_kinematic_spec(front, *keys, step as int),
{
    proof {
        crate::player_character::lemma_scaled_step_fits(front, step as int);
        crate::player_character::lemma_scaled_step_fits(front, -(step as int));
    }
    let ahead = if keys.forward {
        front.scaled(step)
    } else if keys.backward {
        front.scaled(-step)
    } else {
        Vec3 { x: 0, y: 0, z: 0 }
    };
    Vec3 { x: ahead.x, y: ahead.y - DOWN_BIAS, z: ahead.z }
}

/// Mirror the corrected movement the external controller returned into the
/// player's transform: the body's next kinematic translation.
pub fn apply_corrected_movement(player: &mut PlayerCharacter, corrected: Vec3)
    requires
        in_bounds(old(player).node3d.world_position, 1_000_000_000_000_000),
        in_bounds(corrected, 1_000_000_000_000_000),
    ensures
        *final(player) == (PlayerCharacter {
            node3d: Node3D {
                world_position: add_v(old(player).node3d.world_position, corrected),
                ..old(player).node3d
            },
            ..*old(player)
        }),
{
    let moved = player.node3d.world_position.add(corrected);
    player.node3d.world_position = moved;
}

} // verus!
