use scene_core::aabb::AABBBoundingBox;
use scene_core::camera::Camera;
use scene_core::kinematics::{apply_corrected_movement, desired_kinematic_movement};
use scene_core::node_3d::Node3D;
use scene_core::player_character::PlayerCharacter;
use scene_core::rotation::Rotation;
use scene_core::scene::{process_input, DrawCommand, InputState, Scene, SkyboxHandle};
use scene_core::static_body_3d::{ModelHandle, StaticBody3D};
use scene_core::vec3::Vec3;

fn no_keys() -> InputState {
    InputState {
        forward: false,
        backward: false,
        left: false,
        right: false,
        jump: false,
        crouch: false,
    }
}

fn ground_body() -> StaticBody3D {
    StaticBody3D {
        node3d: Node3D {
            world_position: Vec3 { x: 0, y: -100, z: 0 },
            scale: Vec3 { x: 1_000_000, y: 100, z: 1_000_000 },
            rotation: Rotation { angle_x: 0, angle_y: 0, angle_z: 0 },
        },
        model: ModelHandle { id: 0 },
        bounding_box: AABBBoundingBox {
            x_min: -100_000_000,
            x_max: 100_000_000,
            y_min: -200_000,
            y_max: 0,
            z_min: -100_000_000,
            z_max: 100_000_000,
        },
    }
}

fn physics_test_scene(player_start: Vec3) -> Scene {
    let camera = Camera::from_vec3(
        Vec3 { x: 0, y: 0, z: -2000 },
        Vec3 { x: 0, y: 1000, z: 0 },
        -62_000,
        -16_290,
    );
    let player = PlayerCharacter::new(
        Node3D {
            world_position: player_start,
            scale: Vec3 { x: 1000, y: 1000, z: 1000 },
            rotation: Rotation { angle_x: 0, angle_y: 0, angle_z: 0 },
        },
        camera,
        1600,
    );
    Scene::new(vec![ground_body()], None, player)
}

#[test]
fn falling_player_settles_on_the_ground_top() {
    let mut scene = physics_test_scene(Vec3 { x: 0, y: 10_000, z: 0 });
    let keys = no_keys();
    for _ in 0..400 {
        scene.update(16, &keys, None);
    }
    // Ground top at zero plus half height: exactly 0.8 units up.
    assert_eq!(scene.player.get_position().y, 800);
    assert_eq!(scene.player.get_vertical_velocity(), 0);
    assert_eq!(scene.player.get_position().x, 0);
    assert_eq!(scene.player.get_position().z, 0);
}

#[test]
fn grounded_player_snaps_in_one_step() {
    // A hair above the resting height: one falling step enters the ground,
    // and the next grounded update snaps exactly.
    let mut scene = physics_test_scene(Vec3 { x: 0, y: 805, z: 0 });
    let keys = no_keys();
    scene.update(16, &keys, None);
    assert_eq!(scene.player.get_position().y, 790);
    scene.update(16, &keys, None);
    assert_eq!(scene.player.get_position().y, 800);
    assert_eq!(scene.player.get_vertical_velocity(), 0);
}

#[test]
fn airborne_player_accelerates_downward() {
    let mut scene = physics_test_scene(Vec3 { x: 0, y: 10_000, z: 0 });
    let keys = no_keys();
    scene.update(16, &keys, None);
    // One frame of gravity: 0.981 * 0.016 in thousandths, truncated.
    assert_eq!(scene.player.get_vertical_velocity(), -15);
    assert_eq!(scene.player.get_position().y, 10_000 - 15);
    scene.update(16, &keys, None);
    assert_eq!(scene.player.get_vertical_velocity(), -30);
    assert_eq!(scene.player.get_position().y, 10_000 - 15 - 30);
}

#[test]
fn grounded_jump_launches_upward() {
    let mut scene = physics_test_scene(Vec3 { x: 0, y: 800, z: 0 });
    let mut keys = no_keys();
    keys.jump = true;
    scene.update(16, &keys, None);
    // The jump impulse of the frame less one frame of gravity.
    assert_eq!(scene.player.get_vertical_velocity(), 800 - 15);
    assert_eq!(scene.player.get_position().y, 800 + 785);
}

#[test]
fn held_keys_move_along_the_view() {
    let mut scene = physics_test_scene(Vec3 { x: 0, y: 800, z: 0 });
    // Face exactly down negative z for a clean displacement.
    scene.player = PlayerCharacter::new(
        Node3D {
            world_position: Vec3 { x: 0, y: 800, z: 0 },
            scale: Vec3 { x: 1000, y: 1000, z: 1000 },
            rotation: Rotation { angle_x: 0, angle_y: 0, angle_z: 0 },
        },
        Camera::from_vec3(
            Vec3 { x: 0, y: 0, z: 0 },
            Vec3 { x: 0, y: 1000, z: 0 },
            -90_000,
            0,
        ),
        1600,
    );
    let mut keys = no_keys();
    keys.forward = true;
    scene.update(100, &keys, None);
    // Ten units per second for a tenth of a second, down negative z.
    assert_eq!(scene.player.get_position().z, -1000);
    assert_eq!(scene.player.get_position().x, 0);
    // Grounded with no jump: the height stays snapped.
    assert_eq!(scene.player.get_position().y, 800);
}

#[test]
fn mouse_delta_turns_the_camera_during_update() {
    let mut scene = physics_test_scene(Vec3 { x: 0, y: 800, z: 0 });
    let before = scene.player.camera.yaw;
    scene.update(16, &no_keys(), Some((1_000_000, 0)));
    assert_eq!(scene.player.camera.yaw, before + 100_000);
}

#[test]
fn shared_model_bodies_keep_their_own_transforms() {
    let shared = ModelHandle { id: 7 };
    let node = |x: i64| Node3D {
        world_position: Vec3 { x, y: 0, z: 0 },
        scale: Vec3 { x: 1000, y: 1000, z: 1000 },
        rotation: Rotation { angle_x: 0, angle_y: 0, angle_z: 0 },
    };
    let mut a = StaticBody3D {
        node3d: node(1000),
        model: shared,
        bounding_box: AABBBoundingBox::default(),
    };
    let b = StaticBody3D {
        node3d: node(2000),
        model: shared,
        bounding_box: AABBBoundingBox::default(),
    };
    let b_before = b.model_matrix();
    a.node3d.world_position = Vec3 { x: 99_000, y: 500, z: 0 };
    a.node3d.scale = Vec3 { x: 50, y: 50, z: 50 };
    // The mutated body moved; the body sharing its model did not.
    assert_eq!(a.model_matrix().w.x, 99_000);
    assert_eq!(b.model_matrix(), b_before);
    assert_eq!(b.model_matrix().w.x, 2000);
    assert_eq!(a.model, b.model);
}

#[test]
fn draw_plan_orders_bodies_then_skybox_then_text() {
    let mut scene = physics_test_scene(Vec3 { x: 0, y: 800, z: 0 });
    let second = StaticBody3D {
        node3d: Node3D {
            world_position: Vec3 { x: 5000, y: 0, z: 0 },
            scale: Vec3 { x: 1000, y: 1000, z: 1000 },
            rotation: Rotation { angle_x: 0, angle_y: 0, angle_z: 0 },
        },
        model: ModelHandle { id: 2 },
        bounding_box: AABBBoundingBox::default(),
    };
    scene.static_bodies.push(second);
    scene.skybox = Some(SkyboxHandle { id: 3 });
    let plan = scene.draw_plan(1777);
    assert_eq!(plan.len(), 7);
    assert!(matches!(plan[0], DrawCommand::BindMainShader));
    assert!(matches!(plan[1], DrawCommand::SetProjection { .. }));
    assert!(matches!(plan[2], DrawCommand::SetView { .. }));
    match (&plan[3], &plan[4]) {
        (
            DrawCommand::DrawBody { model: m0, .. },
            DrawCommand::DrawBody { model: m1, .. },
        ) => {
            assert_eq!(m0.id, 0);
            assert_eq!(m1.id, 2);
        },
        _ => panic!("bodies out of order"),
    }
    match (&plan[2], &plan[5]) {
        (
            DrawCommand::SetView { view },
            DrawCommand::DrawSkybox { skybox, view: sky_view, .. },
        ) => {
            assert_eq!(skybox.id, 3);
            // The skybox view is the frame's view with its translation zeroed.
            assert_eq!(sky_view.x, view.x);
            assert_eq!(sky_view.w.x, 0);
            assert_eq!(sky_view.w.y, 0);
            assert_eq!(sky_view.w.z, 0);
        },
        _ => panic!("skybox missing"),
    }
    match &plan[6] {
        DrawCommand::DrawText { position } => assert_eq!(position.y, 800),
        _ => panic!("text overlay missing"),
    }
}

#[test]
fn input_polling_applies_each_held_key() {
    let mut player = PlayerCharacter::new(
        Node3D {
            world_position: Vec3 { x: 0, y: 0, z: 0 },
            scale: Vec3 { x: 1000, y: 1000, z: 1000 },
            rotation: Rotation { angle_x: 0, angle_y: 0, angle_z: 0 },
        },
        Camera::from_vec3(
            Vec3 { x: 0, y: 0, z: 0 },
            Vec3 { x: 0, y: 1000, z: 0 },
            -90_000,
            0,
        ),
        1600,
    );
    let mut keys = no_keys();
    keys.forward = true;
    keys.right = true;
    process_input(&keys, &mut player, 1000);
    // One second forward and one second right at 20.5 units per second.
    assert_eq!(player.get_position(), Vec3 { x: 20_500, y: 1600, z: -20_500 });
    process_input(&no_keys(), &mut player, 1000);
    assert_eq!(player.get_position(), Vec3 { x: 20_500, y: 1600, z: -20_500 });
}

#[test]
fn kinematic_request_carries_the_downward_bias() {
    let front = Vec3 { x: 0, y: 0, z: -1000 };
    let mut keys = no_keys();
    keys.forward = true;
    let request = desired_kinematic_movement(front, &keys, 100);
    assert_eq!(request, Vec3 { x: 0, y: -50, z: -100 });
    keys.forward = false;
    keys.backward = true;
    let request = desired_kinematic_movement(front, &keys, 100);
    assert_eq!(request, Vec3 { x: 0, y: -50, z: 100 });
    let request = desired_kinematic_movement(front, &no_keys(), 100);
    assert_eq!(request, Vec3 { x: 0, y: -50, z: 0 });
}

#[test]
fn corrected_movement_is_mirrored_into_the_player() {
    let mut scene = physics_test_scene(Vec3 { x: 0, y: 800, z: 0 });
    apply_corrected_movement(&mut scene.player, Vec3 { x: 30, y: -50, z: -100 });
    assert_eq!(scene.player.get_position(), Vec3 { x: 30, y: 750, z: -100 });
}
