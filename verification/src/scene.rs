//! The scene: static bodies (insertion order is draw order), an optional
//! skybox, and the player, with the per-frame update that turns elapsed
//! time, held keys and the mouse delta into a collision-resolved player
//! position, and the draw plan a renderer executes in order.

use vstd::prelude::*;

use crate::aabb::{box_in_bounds, overlaps, AABBBoundingBox};
use crate::camera::{camera_wf, front_spec, pitch_after, right_spec, up_spec, yaw_after, Camera,
    ANGLE_LIMIT, MOUSE_LIMIT};
use crate::fixed::{fp_mul, fp_mul_spec, iabs};
use crate::mat4::{perspective, perspective_spec, without_translation_spec, Mat4};
use crate::node_3d::{node_transform_spec, Node3D};
use crate::player_character::{
    half_height_spec, keyboard_moved_spec, lemma_keyboard_moved_bounded, player_wf,
    translated_box_spec, vv_after, MovementDirection, PlayerCharacter, TERMINAL_VELOCITY,
};
use crate::static_body_3d::{ModelHandle, StaticBody3D};
use crate::vec3::{add_v, in_bounds, scale_v, sub_v, v3_from, Vec3};

verus! {

/// Ground speed of the per-frame update, in thousandths of a unit per
/// second.
pub const MOVE_SPEED: i64 = 10_000;

/// Downward acceleration applied per second while airborne.
pub const GRAVITY: i64 = 981;

/// Upward velocity granted per second of jump key held while grounded.
pub const JUMP_RATE: i64 = 50_000;

/// A handle to a skybox the renderer loaded.
#[derive(Clone, Copy, Debug, PartialEq, Eq, Structural)]
pub struct SkyboxHandle {
    pub id: usize,
}

/// The held-key set the input layer supplies each frame.
#[derive(Clone, Copy, Debug, PartialEq, Eq, Structural, Default)]
pub struct InputState {
    pub forward: bool,
    pub backward: bool,
    pub left: bool,
    pub right: bool,
    pub jump: bool,
    pub crouch: bool,
}

/// One step of the ordered plan a renderer executes for a frame.
#[derive(Clone, Copy, Debug, PartialEq, Eq, Structural)]
pub enum DrawCommand {
    BindMainShader,
    SetProjection { projection: Mat4 },
    SetView { view: Mat4 },
    DrawBody { model: ModelHandle, transform: Mat4 },
    DrawSkybox { skybox: SkyboxHandle, view: Mat4, projection: Mat4 },
    DrawText { position: Vec3 },
}

pub struct Scene {
    pub static_bodies: Vec<StaticBody3D>,
    pub skybox: Option<SkyboxHandle>,
    pub player: PlayerCharacter,
}

/// The view matrix of the player's camera at the player's world position.
pub open spec fn player_view_spec(p: PlayerCharacter) -> Mat4 {
    crate::mat4::look_at_spec(
        add_v(p.camera.position, p.node3d.world_position),
        add_v(add_v(p.camera.position, p.node3d.world_position), p.camera.front),
        p.camera.up,
    )
}

/// Near clip plane of the scene's projection.
pub const Z_NEAR: i64 = 100;

/// Far clip plane of the scene's projection.
pub const Z_FAR: i64 = 100_000;

/// The camera after this frame's mouse delta, if any: a constrained
/// mouse-look step.
pub open spec fn camera_after_mouse(c: Camera, mouse_delta: Option<(i64, i64)>) -> Camera {
    match mouse_delta {
        Some(d) => {
            let ny = yaw_after(c.yaw as int, c.mouse_sensitivity as int, d.0 as int);
            let np = pitch_after(c.pitch as int, c.mouse_sensitivity as int, d.1 as int, true);
            Camera {
                yaw: ny as i64,
                pitch: np as i64,
                front: front_spec(ny, np),
                right: right_spec(ny, np, c.world_up),
                up: up_spec(ny, np, c.world_up),
                ..c
            }
        },
        None => c,
    }
}

/// The frame's desired horizontal displacement: the horizontally projected
/// view direction and the right direction, combined by the held keys and
/// scaled by ground speed and elapsed time.
pub open spec fn desired_movement_spec(cam: Camera, keys: InputState, dt: int) -> Vec3 {
    let forward = v3_from(cam.front.x as int, 0, cam.front.z as int);
    let still = v3_from(0, 0, 0);
    let ahead = if keys.forward {
        add_v(still, forward)
    } else if keys.backward {
        sub_v(still, forward)
    } else {
        still
    };
    let sideways = if keys.left {
        sub_v(ahead, cam.right)
    } else if keys.right {
        add_v(ahead, cam.right)
    } else {
        ahead
    };
    scale_v(sideways, fp_mul_spec(MOVE_SPEED as int, dt))
}

/// One frame of the player update against the ground body: mouse look,
/// grounded test on the recentered body box, jump impulse or snap to the
/// ground top or semi-implicit gravity integration, then the horizontal
/// displacement.
pub open spec fn player_after_update(
    p: PlayerCharacter,
    ground: AABBBoundingBox,
    dt: int,
    keys: InputState,
    mouse_delta: Option<(i64, i64)>,
) -> PlayerCharacter {
    let cam = camera_after_mouse(p.camera, mouse_delta);
    let desired = desired_movement_spec(cam, keys, dt);
    let grounded = overlaps(
        translated_box_spec(p.bounding_box, p.node3d.world_position),
        ground,
    );
    let lifted = if grounded && keys.jump {
        vv_after(p.vertical_velocity as int, fp_mul_spec(JUMP_RATE as int, dt))
    } else {
        p.vertical_velocity as int
    };
    let vv = if grounded && !keys.jump {
        0
    } else {
        vv_after(lifted, -fp_mul_spec(GRAVITY as int, dt))
    };
    let pos0 = p.node3d.world_position;
    let py = if grounded && !keys.jump {
        ground.y_max + half_height_spec(p.bounding_box)
    } else {
        pos0.y + vv
    };
    let pos = v3_from(pos0.x + desired.x, py + desired.y, pos0.z + desired.z);
    PlayerCharacter {
        node3d: Node3D { world_position: pos, ..p.node3d },
        camera: cam,
        vertical_velocity: vv as i64,
        ..p
    }
}

impl Scene {
    /// A scene over its bodies, optional skybox and player.
    pub fn new(
        static_bodies: Vec<StaticBody3D>,
        skybox: Option<SkyboxHandle>,
        player: PlayerCharacter,
    ) -> (r: Scene)
        ensures
            r.static_bodies == static_bodies,
            r.skybox == skybox,
            r.player == player,
    {
        Scene { static_bodies, skybox, player }
    }

    /// One frame: forward the mouse delta to the camera, resolve the held
    /// keys into a horizontal displacement, test the player against the
    /// ground body, then snap, jump or fall, and apply the displacement.
    #[verifier::rlimit(100)]
    pub fn update(
        &mut self,
        delta_time: i64,
        held_keys: &InputState,
        mouse_delta: Option<(i64, i64)>,
    )
        requires
            old(self).static_bodies@.len() > 0,
            player_wf(old(self).player),
            in_bounds(old(self).player.node3d.world_position, 100_000_000),
            old(self).player.vertical_velocity <= 1_000_000_000,
            box_in_bounds(old(self).static_bodies@[0].bounding_box, 100_000_000),
            0 <= delta_time <= 60_000,
            iabs(old(self).player.camera.yaw as int) + 100_000_000 <= ANGLE_LIMIT as int,
            iabs(old(self).player.camera.pitch as int) + 100_000_000 <= ANGLE_LIMIT as int,
            mouse_delta matches Some(d) ==> iabs(d.0 as int) <= MOUSE_LIMIT as int && iabs(
                d.1 as int,
            ) <= MOUSE_LIMIT as int,
        ensures
            final(self).static_bodies == old(self).static_bodies,
            final(self).skybox == old(self).skybox,
            final(self).player == player_after_update(
                old(self).player,
                old(self).static_bodies@[0].bounding_box,
                delta_time as int,
                *held_keys,
                mouse_delta,
            ),
    {
        if let Some(delta) = mouse_delta {
            self.player.process_mouse_movement(delta.0, delta.1, true);
        }
        proof {
            assert(self.player.camera == camera_after_mouse(old(self).player.camera, mouse_delta));
        }

        let look_direction = self.player.get_look_direction();
        let right_direction = self.player.get_right_direction();
        let forward_direction = Vec3 { x: look_direction.x, y: 0, z: look_direction.z };
        proof {
            crate::camera::lemma_camera_basis_bounded(self.player.camera);
        }

        let mut desired_movement = Vec3 { x: 0, y: 0, z: 0 };
        if held_keys.forward {
            desired_movement = desired_movement.add(forward_direction);
        } else if held_keys.backward {
            desired_movement = desired_movement.sub(forward_direction);
        }
        if held_keys.left {
            desired_movement = desired_movement.sub(right_direction);
        } else if held_keys.right {
            desired_movement = desired_movement.add(right_direction);
        }

        proof {
            crate::vec3::lemma_mul_bound(MOVE_SPEED as int, delta_time as int, 10_000, 60_000);
            assert(10_000int * 60_000int == 600_000_000int) by (nonlinear_arith);
            assert(1000int * 0x7fff_ffff_ffff_ffffint == 9_223_372_036_854_775_807_000int)
                by (nonlinear_arith);
            assert(600_000int * 1000int == 600_000_000int) by (nonlinear_arith);
            crate::fixed::lemma_div_to_zero_le(
                MOVE_SPEED as int * delta_time as int,
                1000,
                600_000,
            );
        }
        let speed_dt = fp_mul(MOVE_SPEED, delta_time);
        proof {
            lemma_desired_scale_fits(desired_movement, speed_dt as int);
        }
        desired_movement = desired_movement.scaled(speed_dt);

        let ground_box = self.static_bodies[0].bounding_box;
        let collides_with_ground = self.player.check_collision(ground_box);

        proof {
            crate::vec3::lemma_mul_bound(JUMP_RATE as int, delta_time as int, 50_000, 60_000);
            assert(50_000int * 60_000int == 3_000_000_000int) by (nonlinear_arith);
            assert(3_000_000int * 1000int == 3_000_000_000int) by (nonlinear_arith);
            crate::fixed::lemma_div_to_zero_le(
                JUMP_RATE as int * delta_time as int,
                1000,
                3_000_000,
            );
            crate::vec3::lemma_mul_bound(GRAVITY as int, delta_time as int, 981, 60_000);
            assert(981int * 60_000int == 58_860_000int) by (nonlinear_arith);
            assert(58_860int * 1000int == 58_860_000int) by (nonlinear_arith);
            crate::fixed::lemma_div_to_zero_le(
                GRAVITY as int * delta_time as int,
                1000,
                58_860,
            );
        }
        if collides_with_ground && held_keys.jump {
            self.player.add_vertical_velocity(fp_mul(JUMP_RATE, delta_time));
        }

        let mut pos = self.player.get_position();
        if collides_with_ground && !held_keys.jump {
            pos.y = ground_box.y_max + self.player.get_half_height();
            self.player.reset_vertical_velocity();
        } else {
            self.player.add_vertical_velocity(-fp_mul(GRAVITY, delta_time));
            pos.y = pos.y + self.player.get_vertical_velocity();
        }

        pos = pos.add(desired_movement);
        self.player.set_position(pos.x, pos.y, pos.z);
    }

    /// The frame's ordered draw plan: bind the main shader, upload the
    /// projection (from the camera's zoom and the window's aspect ratio)
    /// and the view, draw every static body in insertion order, then the
    /// skybox under a translation-stripped view so it turns but never
    /// moves, and last the text overlay with the player's position.
    pub fn draw_plan(&self, aspect: i64) -> (plan: Vec<DrawCommand>)
        requires
            camera_wf(self.player.camera),
            in_bounds(self.player.node3d.world_position, 200_000_000),
            1 <= aspect,
            forall|i: int|
                0 <= i < self.static_bodies@.len() ==> in_bounds(
                    #[trigger] self.static_bodies@[i].node3d.world_position,
                    500_000_000,
                ) && in_bounds(self.static_bodies@[i].node3d.scale, 1_000_000_000),
        ensures
            plan@.len() == 4 + self.static_bodies@.len() + (if self.skybox is Some {
                1int
            } else {
                0int
            }),
            plan@[0] == DrawCommand::BindMainShader,
            plan@[1] == (DrawCommand::SetProjection {
                projection: perspective_spec(
                    self.player.camera.zoom as int,
                    aspect as int,
                    Z_NEAR as int,
                    Z_FAR as int,
                ),
            }),
            plan@[2] == (DrawCommand::SetView { view: player_view_spec(self.player) }),
            forall|i: int|
                0 <= i < self.static_bodies@.len() ==> plan@[3 + i] == (DrawCommand::DrawBody {
                    model: #[trigger] self.static_bodies@[i].model,
                    transform: node_transform_spec(self.static_bodies@[i].node3d),
                }),
            self.skybox matches Some(sky) ==> plan@[3 + self.static_bodies@.len() as int]
                == (DrawCommand::DrawSkybox {
                skybox: sky,
                view: without_translation_spec(player_view_spec(self.player)),
                projection: perspective_spec(
                    self.player.camera.zoom as int,
                    aspect as int,
                    Z_NEAR as int,
                    Z_FAR as int,
                ),
            }),
            plan@[plan@.len() - 1] == (DrawCommand::DrawText {
                position: self.player.node3d.world_position,
            }),
    {
        let mut plan: Vec<DrawCommand> = Vec::new();
        plan.push(DrawCommand::BindMainShader);
        let projection = perspective(self.player.get_camera_zoom(), aspect, Z_NEAR, Z_FAR);
        plan.push(DrawCommand::SetProjection { projection });
        let view = self.player.get_camera_view_matrix();
        plan.push(DrawCommand::SetView { view });

        let mut i: usize = 0;
        while i < self.static_bodies.len()
            invariant
                i <= self.static_bodies@.len(),
                plan@.len() == 3 + i,
                plan@[0] == DrawCommand::BindMainShader,
                plan@[1] == (DrawCommand::SetProjection { projection }),
                plan@[2] == (DrawCommand::SetView { view }),
                forall|k: int|
                    0 <= k < i ==> plan@[3 + k] == (DrawCommand::DrawBody {
                        model: #[trigger] self.static_bodies@[k].model,
                        transform: node_transform_spec(self.static_bodies@[k].node3d),
                    }),
                forall|k: int|
                    0 <= k < self.static_bodies@.len() ==> in_bounds(
                        #[trigger] self.static_bodies@[k].node3d.world_position,
                        500_000_000,
                    ) && in_bounds(self.static_bodies@[k].node3d.scale, 1_000_000_000),
            decreases self.static_bodies@.len() - i,
        {
            let body_model = self.static_bodies[i].model;
            let transform = self.static_bodies[i].model_matrix();
            plan.push(DrawCommand::DrawBody { model: body_model, transform });
            i = i + 1;
        }

        if let Some(sky) = self.skybox {
            plan.push(
                DrawCommand::DrawSkybox { skybox: sky, view: view.without_translation(), projection },
            );
        }

        let player_pos = self.player.get_position();
        plan.push(DrawCommand::DrawText { position: player_pos });
        plan
    }
}

/// The player after the per-key movement intents of one input poll, applied
/// in the fixed forward, backward, left, right, jump, crouch order.
pub open spec fn process_input_spec(p: PlayerCharacter, keys: InputState, dt: int)
    -> PlayerCharacter {
    let p1 = if keys.forward {
        after_key(p, MovementDirection::Forward, dt)
    } else {
        p
    };
    let p2 = if keys.backward {
        after_key(p1, MovementDirection::Backward, dt)
    } else {
        p1
    };
    let p3 = if keys.left {
        after_key(p2, MovementDirection::Left, dt)
    } else {
        p2
    };
    let p4 = if keys.right {
        after_key(p3, MovementDirection::Right, dt)
    } else {
        p3
    };
    let p5 = if keys.jump {
        after_key(p4, MovementDirection::Up, dt)
    } else {
        p4
    };
    if keys.crouch {
        after_key(p5, MovementDirection::Down, dt)
    } else {
        p5
    }
}

/// The player after a single movement intent.
pub open spec fn after_key(p: PlayerCharacter, direction: MovementDirection, dt: int)
    -> PlayerCharacter {
    PlayerCharacter {
        node3d: Node3D { world_position: keyboard_moved_spec(p, direction, dt), ..p.node3d },
        ..p
    }
}

/// Forward each held movement key to the player as one movement intent.
pub fn process_input(pressed_keys: &InputState, player: &mut PlayerCharacter, dt: i64)
    requires
        camera_wf(old(player).camera),
        0 <= old(player).movement_speed <= 1_000_000,
        0 <= dt <= 1_000_000,
        in_bounds(old(player).node3d.world_position, 100_000_000_000_000),
    ensures
        *final(player) == process_input_spec(*old(player), *pressed_keys, dt as int),
{
    if pressed_keys.forward {
        proof {
            lemma_keyboard_moved_bounded(
                *player,
                MovementDirection::Forward,
                dt as int,
                100_000_000_000_000,
            );
        }
        player.process_keyboard(MovementDirection::Forward, dt);
    }
    if pressed_keys.backward {
        proof {
            lemma_keyboard_moved_bounded(
                *player,
                MovementDirection::Backward,
                dt as int,
                100_001_000_000_000,
            );
        }
        player.process_keyboard(MovementDirection::Backward, dt);
    }
    if pressed_keys.left {
        proof {
            lemma_keyboard_moved_bounded(
                *player,
                MovementDirection::Left,
                dt as int,
                100_002_000_000_000,
            );
        }
        player.process_keyboard(MovementDirection::Left, dt);
    }
    if pressed_keys.right {
        proof {
            lemma_keyboard_moved_bounded(
                *player,
                MovementDirection::Right,
                dt as int,
                100_003_000_000_000,
            );
        }
        player.process_keyboard(MovementDirection::Right, dt);
    }
    if pressed_keys.jump {
        proof {
            lemma_keyboard_moved_bounded(
                *player,
                MovementDirection::Up,
                dt as int,
                100_004_000_000_000,
            );
        }
        player.process_keyboard(MovementDirection::Up, dt);
    }
    if pressed_keys.crouch {
        proof {
            lemma_keyboard_moved_bounded(
                *player,
                MovementDirection::Down,
                dt as int,
                100_005_000_000_000,
            );
        }
        player.process_keyboard(MovementDirection::Down, dt);
    }
}

/// The combined key direction has at most two unit directions in it, so the
/// frame's scaling fits.
proof fn lemma_desired_scale_fits(d: Vec3, s: int)
    requires
        in_bounds(d, 2000),
        0 <= s <= 600_000,
    ensures
        iabs(d.x * s) <= 1_200_000_000,
        iabs(d.y * s) <= 1_200_000_000,
        iabs(d.z * s) <= 1_200_000_000,
{
    crate::vec3::lemma_mul_bound(d.x as int, s, 2000, 600_000);
    crate::vec3::lemma_mul_bound(d.y as int, s, 2000, 600_000);
    crate::vec3::lemma_mul_bound(d.z as int, s, 2000, 600_000);
    assert(2000int * 600_000int == 1_200_000_000int) by (nonlinear_arith);
}


/// With no movement keys held, the frame's desired displacement is zero.
pub proof fn lemma_no_keys_no_movement(cam: Camera, keys: InputState, dt: int)
    requires
        !keys.forward,
        !keys.backward,
        !keys.left,
        !keys.right,
    ensures
        desired_movement_spec(cam, keys, dt) == v3_from(0, 0, 0),
{
    let s = fp_mul_spec(MOVE_SPEED as int, dt);
    assert(0int * s == 0) by (nonlinear_arith);
    vstd::arithmetic::div_mod::lemma_div_of0(1000);
}

/// Law: one update of a grounded player holding no keys snaps the height to
/// exactly the ground top plus the body's half height, resets the vertical
/// velocity to zero, and moves nowhere horizontally.
pub proof fn lemma_grounded_snap(
    p: PlayerCharacter,
    ground: AABBBoundingBox,
    dt: int,
    keys: InputState,
)
    requires
        overlaps(translated_box_spec(p.bounding_box, p.node3d.world_position), ground),
        !keys.forward,
        !keys.backward,
        !keys.left,
        !keys.right,
        !keys.jump,
        box_in_bounds(p.bounding_box, 100_000_000),
        box_in_bounds(ground, 100_000_000),
        in_bounds(p.node3d.world_position, 200_000_000),
        0 <= dt,
    ensures
        player_after_update(p, ground, dt, keys, None).vertical_velocity == 0,
        player_after_update(p, ground, dt, keys, None).node3d.world_position.y as int
            == ground.y_max + half_height_spec(p.bounding_box),
        player_after_update(p, ground, dt, keys, None).node3d.world_position.x
            == p.node3d.world_position.x,
        player_after_update(p, ground, dt, keys, None).node3d.world_position.z
            == p.node3d.world_position.z,
{
    lemma_no_keys_no_movement(camera_after_mouse(p.camera, None), keys, dt);
    crate::fixed::lemma_div_to_zero_bound(p.bounding_box.y_max as int - p.bounding_box.y_min as int, 2);
}

/// Law: one update of an airborne player holding no keys integrates gravity
/// semi-implicitly: the vertical velocity takes the frame's gravity (clamped
/// at terminal speed) and the height drops by at least the frame's gravity.
pub proof fn lemma_airborne_descent(
    p: PlayerCharacter,
    ground: AABBBoundingBox,
    dt: int,
    keys: InputState,
)
    requires
        !overlaps(translated_box_spec(p.bounding_box, p.node3d.world_position), ground),
        !keys.forward,
        !keys.backward,
        !keys.left,
        !keys.right,
        !keys.jump,
        TERMINAL_VELOCITY <= p.vertical_velocity <= 0,
        0 <= dt <= 56_000,
        in_bounds(p.node3d.world_position, 200_000_000),
    ensures
        player_after_update(p, ground, dt, keys, None).vertical_velocity as int == vv_after(
            p.vertical_velocity as int,
            -fp_mul_spec(GRAVITY as int, dt),
        ),
        player_after_update(p, ground, dt, keys, None).node3d.world_position.y as int
            == p.node3d.world_position.y + player_after_update(
            p,
            ground,
            dt,
            keys,
            None,
        ).vertical_velocity,
        player_after_update(p, ground, dt, keys, None).node3d.world_position.y as int
            <= p.node3d.world_position.y - fp_mul_spec(GRAVITY as int, dt),
        player_after_update(p, ground, dt, keys, None).node3d.world_position.x
            == p.node3d.world_position.x,
        player_after_update(p, ground, dt, keys, None).node3d.world_position.z
            == p.node3d.world_position.z,
{
    lemma_no_keys_no_movement(camera_after_mouse(p.camera, None), keys, dt);
    crate::vec3::lemma_mul_bound(GRAVITY as int, dt, 981, 56_000);
    assert(981int * 56_000int == 54_936_000int) by (nonlinear_arith);
    assert(54_936int * 1000int == 54_936_000int) by (nonlinear_arith);
    crate::fixed::lemma_div_to_zero_le(GRAVITY as int * dt, 1000, 54_936);
    vstd::arithmetic::div_mod::lemma_div_pos_is_pos(iabs(GRAVITY as int * dt), 1000);
    assert(fp_mul_spec(GRAVITY as int, dt) >= 0);
}


/// The player after `n` identical updates.
pub open spec fn updated_n(
    p: PlayerCharacter,
    ground: AABBBoundingBox,
    dt: int,
    keys: InputState,
    n: nat,
) -> PlayerCharacter
    decreases n,
{
    if n == 0 {
        p
    } else {
        player_after_update(updated_n(p, ground, dt, keys, (n - 1) as nat), ground, dt, keys, None)
    }
}

/// Iterating once more from the start is iterating from one step in.
proof fn lemma_updated_shift(
    p: PlayerCharacter,
    ground: AABBBoundingBox,
    dt: int,
    keys: InputState,
    n: nat,
)
    ensures
        updated_n(p, ground, dt, keys, (n + 1) as nat) == updated_n(
            player_after_update(p, ground, dt, keys, None),
            ground,
            dt,
            keys,
            n,
        ),
    decreases n,
{
    let p1 = player_after_update(p, ground, dt, keys, None);
    assert(updated_n(p, ground, dt, keys, (n + 1) as nat) == player_after_update(
        updated_n(p, ground, dt, keys, n),
        ground,
        dt,
        keys,
        None,
    ));
    if n == 0 {
        assert(updated_n(p, ground, dt, keys, 0nat) == p);
        assert(updated_n(p1, ground, dt, keys, 0nat) == p1);
    } else {
        lemma_updated_shift(p, ground, dt, keys, (n - 1) as nat);
        assert(updated_n(p1, ground, dt, keys, n) == player_after_update(
            updated_n(p1, ground, dt, keys, (n - 1) as nat),
            ground,
            dt,
            keys,
            None,
        ));
    }
}

/// Law: a player above the ground with no keys held and no upward motion
/// settles: after some number of updates its height is exactly the ground
/// top plus its half height and its vertical velocity is zero, provided the
/// ground slab is at least one frame's terminal fall deep (else a frame
/// could tunnel straight through it, an accepted limitation).
pub open spec fn falling_over_ground(
    p: PlayerCharacter,
    ground: AABBBoundingBox,
    dt: int,
    keys: InputState,
) -> bool {
    &&& !keys.forward
    &&& !keys.backward
    &&& !keys.left
    &&& !keys.right
    &&& !keys.jump
    &&& crate::aabb::box_wf(p.bounding_box)
    &&& box_in_bounds(p.bounding_box, 100_000_000)
    &&& box_in_bounds(ground, 100_000_000)
    &&& iabs(p.node3d.world_position.x as int) <= 100_000_000
    &&& iabs(p.node3d.world_position.z as int) <= 100_000_000
    &&& -200_000_000 <= p.node3d.world_position.y <= 200_000_000
    &&& TERMINAL_VELOCITY <= p.vertical_velocity <= 0
    &&& 2 <= dt <= 56_000
    &&& ground.y_max - ground.y_min >= 55_000
    &&& translated_box_spec(p.bounding_box, p.node3d.world_position).x_min <= ground.x_max
    &&& translated_box_spec(p.bounding_box, p.node3d.world_position).x_max >= ground.x_min
    &&& translated_box_spec(p.bounding_box, p.node3d.world_position).z_min <= ground.z_max
    &&& translated_box_spec(p.bounding_box, p.node3d.world_position).z_max >= ground.z_min
    &&& p.node3d.world_position.y + half_height_spec(p.bounding_box) >= ground.y_min
}

/// After `n` updates the player rests exactly on the ground top.
pub open spec fn settled_at(
    p: PlayerCharacter,
    ground: AABBBoundingBox,
    dt: int,
    keys: InputState,
    n: nat,
) -> bool {
    updated_n(p, ground, dt, keys, n).vertical_velocity == 0 && updated_n(
        p,
        ground,
        dt,
        keys,
        n,
    ).node3d.world_position.y as int == ground.y_max + half_height_spec(p.bounding_box)
}

/// Some number of updates brings the player to rest on the ground top.
pub open spec fn eventually_settles(
    p: PlayerCharacter,
    ground: AABBBoundingBox,
    dt: int,
    keys: InputState,
) -> bool {
    exists|n: nat| settled_at(p, ground, dt, keys, n)
}

/// Height still to fall, padded to stay non-negative.
pub open spec fn fall_measure(p: PlayerCharacter, ground: AABBBoundingBox) -> int {
    p.node3d.world_position.y - ground.y_max + 500_000_000
}

pub proof fn lemma_fall_converges(
    p: PlayerCharacter,
    ground: AABBBoundingBox,
    dt: int,
    keys: InputState,
)
    requires
        falling_over_ground(p, ground, dt, keys),
    ensures
        eventually_settles(p, ground, dt, keys),
    decreases fall_measure(p, ground),
{
    let half = half_height_spec(p.bounding_box);
    crate::fixed::lemma_div_to_zero_bound(p.bounding_box.y_max as int - p.bounding_box.y_min as int, 2);
    vstd::arithmetic::div_mod::lemma_div_pos_is_pos(
        p.bounding_box.y_max as int - p.bounding_box.y_min as int,
        2,
    );
    assert(0 <= half <= 200_000_000);
    let tb = translated_box_spec(p.bounding_box, p.node3d.world_position);
    assert(tb.y_min as int == p.node3d.world_position.y - half);
    assert(tb.y_max as int == p.node3d.world_position.y + half);
    if overlaps(tb, ground) {
        lemma_grounded_snap(p, ground, dt, keys);
        let done = updated_n(p, ground, dt, keys, 1nat);
        assert(updated_n(p, ground, dt, keys, 0nat) == p);
        assert(done == player_after_update(p, ground, dt, keys, None));
        assert(settled_at(p, ground, dt, keys, 1nat));
    } else {
        assert(p.node3d.world_position.y - half > ground.y_max);
        let g = fp_mul_spec(GRAVITY as int, dt);
        assert(981int * dt >= 1962) by (nonlinear_arith)
            requires
                dt >= 2,
        ;
        crate::vec3::lemma_mul_bound(GRAVITY as int, dt, 981, 56_000);
        assert(981int * 56_000int == 54_936_000int) by (nonlinear_arith);
        assert(54_936int * 1000int == 54_936_000int) by (nonlinear_arith);
        crate::fixed::lemma_div_to_zero_le(GRAVITY as int * dt, 1000, 54_936);
        vstd::arithmetic::div_mod::lemma_div_is_ordered(1000, 981 * dt, 1000);
        vstd::arithmetic::div_mod::lemma_div_by_self(1000);
        vstd::arithmetic::div_mod::lemma_div_pos_is_pos(iabs(GRAVITY as int * dt), 1000);
        assert(1 <= g <= 54_936);
        lemma_airborne_descent(p, ground, dt, keys);
        let p1 = player_after_update(p, ground, dt, keys, None);
        assert(p1.bounding_box == p.bounding_box);
        assert(p1.node3d.world_position.x == p.node3d.world_position.x);
        assert(p1.node3d.world_position.z == p.node3d.world_position.z);
        let vv1 = vv_after(p.vertical_velocity as int, -g);
        assert(p1.vertical_velocity as int == vv1);
        assert(TERMINAL_VELOCITY <= vv1 <= -g);
        assert(p1.node3d.world_position.y as int == p.node3d.world_position.y + vv1);
        let tb1 = translated_box_spec(p1.bounding_box, p1.node3d.world_position);
        assert(tb1.x_min == tb.x_min && tb1.x_max == tb.x_max);
        assert(tb1.z_min == tb.z_min && tb1.z_max == tb.z_max);
        assert(tb1.y_min as int == p1.node3d.world_position.y - half);
        // One frame cannot tunnel through a slab deeper than a frame's fall.
        assert(p1.node3d.world_position.y - half > ground.y_max - 55_000);
        assert(p1.node3d.world_position.y + half >= ground.y_min);
        lemma_fall_converges(p1, ground, dt, keys);
        let n1 = choose|n: nat| #[trigger] settled_at(p1, ground, dt, keys, n);
        lemma_updated_shift(p, ground, dt, keys, n1);
        assert(updated_n(p, ground, dt, keys, (n1 + 1) as nat) == updated_n(
            p1,
            ground,
            dt,
            keys,
            n1,
        ));
        assert(settled_at(p, ground, dt, keys, (n1 + 1) as nat));
    }
}

} // verus!
