use scene_core::camera::Camera;
use scene_core::node_3d::Node3D;
use scene_core::player_character::{MovementDirection, PlayerCharacter};
use scene_core::rotation::Rotation;
use scene_core::vec3::Vec3;

fn level_camera() -> Camera {
    Camera::from_vec3(
        Vec3 { x: 0, y: 0, z: 0 },
        Vec3 { x: 0, y: 1000, z: 0 },
        -90_000,
        0,
    )
}

fn player_at(position: Vec3, height: i64) -> PlayerCharacter {
    let node = Node3D {
        world_position: position,
        scale: Vec3 { x: 1000, y: 1000, z: 1000 },
        rotation: Rotation { angle_x: 0, angle_y: 0, angle_z: 0 },
    };
    PlayerCharacter::new(node, level_camera(), height)
}

#[test]
fn default_orientation_faces_negative_z() {
    let camera = level_camera();
    assert_eq!(camera.front, Vec3 { x: 0, y: 0, z: -1000 });
    assert_eq!(camera.right, Vec3 { x: 1000, y: 0, z: 0 });
    assert_eq!(camera.up, Vec3 { x: 0, y: 1000, z: 0 });
}

#[test]
fn basis_stays_orthonormal_under_mouse_look() {
    let mut camera = level_camera();
    let offsets: [(i64, i64); 6] =
        [(120_000, 50_000), (-300_000, 20_000), (10_000, -400_000), (777_000, 333_000), (
            -50_000,
            -50_000,
        ), (1_000_000, 250_000)];
    for (dx, dy) in offsets {
        camera.process_mouse_movement(dx, dy, true);
        let f = camera.front;
        let r = camera.right;
        let u = camera.up;
        for v in [f, r, u] {
            let norm_sq = v.x * v.x + v.y * v.y + v.z * v.z;
            assert!((norm_sq - 1_000_000).abs() <= 25_000, "norm_sq {norm_sq}");
        }
        for (a, b) in [(f, r), (f, u), (r, u)] {
            let dot = a.x * b.x + a.y * b.y + a.z * b.z;
            assert!(dot.abs() <= 25_000, "dot {dot}");
        }
    }
}

#[test]
fn pitch_saturates_at_eighty_nine_degrees() {
    let mut camera = level_camera();
    for _ in 0..10 {
        camera.process_mouse_movement(0, 1_000_000, true);
        assert!(camera.pitch <= 89_000);
        assert!(camera.pitch >= -89_000);
    }
    assert_eq!(camera.pitch, 89_000);
    for _ in 0..10 {
        camera.process_mouse_movement(0, -1_000_000, true);
        assert!(camera.pitch >= -89_000);
    }
    assert_eq!(camera.pitch, -89_000);
}

#[test]
fn unconstrained_pitch_is_not_clamped() {
    let mut camera = level_camera();
    camera.process_mouse_movement(0, 1_000_000, false);
    assert_eq!(camera.pitch, 100_000);
}

#[test]
fn mouse_look_scales_by_sensitivity() {
    let mut camera = level_camera();
    camera.process_mouse_movement(1_000_000, 0, true);
    // A tenth of a degree per count: a thousand counts turn a hundred degrees.
    assert_eq!(camera.yaw, -90_000 + 100_000);
    assert_eq!(camera.pitch, 0);
}

#[test]
fn zoom_stays_between_one_and_forty_five_degrees() {
    let mut camera = level_camera();
    assert_eq!(camera.zoom, 70_000);
    camera.process_mouse_scroll(1000);
    assert_eq!(camera.zoom, 45_000);
    camera.process_mouse_scroll(-500_000);
    assert_eq!(camera.zoom, 45_000);
    camera.process_mouse_scroll(1_000_000);
    assert_eq!(camera.zoom, 1000);
    camera.process_mouse_scroll(-14_000);
    assert_eq!(camera.zoom, 15_000);
}

#[test]
fn player_box_spans_the_requested_height() {
    let player = player_at(Vec3 { x: 0, y: 0, z: 0 }, 1600);
    assert_eq!(player.bounding_box.x_min, -250);
    assert_eq!(player.bounding_box.x_max, 250);
    assert_eq!(player.bounding_box.y_min, 0);
    assert_eq!(player.bounding_box.y_max, 1600);
    assert_eq!(player.get_half_height(), 800);
    assert_eq!(player.get_vertical_velocity(), 0);
}

#[test]
fn terminal_velocity_is_never_passed() {
    let mut player = player_at(Vec3 { x: 0, y: 0, z: 0 }, 1600);
    for _ in 0..100 {
        player.add_vertical_velocity(-20_000);
        assert!(player.get_vertical_velocity() >= -55_000);
    }
    assert_eq!(player.get_vertical_velocity(), -55_000);
    player.add_vertical_velocity(60_000);
    assert_eq!(player.get_vertical_velocity(), 5_000);
    player.reset_vertical_velocity();
    assert_eq!(player.get_vertical_velocity(), 0);
}

#[test]
fn keyboard_movement_follows_the_view_and_pins_height() {
    let mut player = player_at(Vec3 { x: 0, y: 0, z: 0 }, 1600);
    player.process_keyboard(MovementDirection::Forward, 1000);
    // Facing negative z at 20.5 units per second for one second.
    assert_eq!(player.get_position(), Vec3 { x: 0, y: 1600, z: -20_500 });
    player.process_keyboard(MovementDirection::Right, 1000);
    assert_eq!(player.get_position(), Vec3 { x: 20_500, y: 1600, z: -20_500 });
    player.process_keyboard(MovementDirection::Up, 1000);
    assert_eq!(player.get_position(), Vec3 { x: 20_500, y: 1600, z: -20_500 });
}

#[test]
fn collision_test_recenters_the_body_box() {
    let player = player_at(Vec3 { x: 0, y: 800, z: 0 }, 1600);
    let ground = scene_core::aabb::AABBBoundingBox {
        x_min: -100_000,
        x_max: 100_000,
        y_min: -200_000,
        y_max: 0,
        z_min: -100_000,
        z_max: 100_000,
    };
    // Feet exactly on the ground top: inclusive overlap.
    assert!(player.check_collision(ground));
    let airborne = player_at(Vec3 { x: 0, y: 801, z: 0 }, 1600);
    assert!(!airborne.check_collision(ground));
    let far = player_at(Vec3 { x: 200_000, y: 800, z: 0 }, 1600);
    assert!(!far.check_collision(ground));
}

#[test]
fn view_matrix_embeds_the_camera_basis() {
    let player = player_at(Vec3 { x: 0, y: 800, z: 0 }, 1600);
    let view = player.get_camera_view_matrix();
    // Right, up and negative front land in the rotation rows.
    assert_eq!(view.x.x, 1000);
    assert_eq!(view.y.y, 1000);
    assert_eq!(view.z.z, 1000);
    assert_eq!(view.w.w, 1000);
    // The translation column carries the negated eye position along the basis.
    assert_eq!(view.w.y, -800);
}
