use scene_core::aabb::AABBBoundingBox;
use scene_core::fixed::{fp_div, fp_mul, halve, isqrt_u64, scale_down};
use scene_core::mat4::Mat4;
use scene_core::rotation::Rotation;
use scene_core::trig::{cos_deg, sin_deg};
use scene_core::vec3::Vec3;

#[test]
fn fixed_point_products_rescale() {
    assert_eq!(fp_mul(1500, 2000), 3000);
    assert_eq!(fp_mul(-1500, 2000), -3000);
    assert_eq!(fp_mul(1000, 1000), 1000);
    assert_eq!(fp_mul(0, 123_456), 0);
}

#[test]
fn fixed_point_truncates_toward_zero() {
    assert_eq!(fp_mul(1, 999), 0);
    assert_eq!(fp_mul(-1, 999), 0);
    assert_eq!(fp_mul(-1999, 1), -1);
    assert_eq!(scale_down(-1999), -1);
    assert_eq!(halve(-3), -1);
    assert_eq!(halve(3), 1);
}

#[test]
fn fixed_point_division() {
    assert_eq!(fp_div(1000, 2000), 500);
    assert_eq!(fp_div(-1000, 2000), -500);
    assert_eq!(fp_div(1000, -2000), -500);
    assert_eq!(fp_div(705, 705), 1000);
}

#[test]
fn integer_square_roots() {
    assert_eq!(isqrt_u64(0), 0);
    assert_eq!(isqrt_u64(10), 3);
    assert_eq!(isqrt_u64(1_000_000), 1000);
    assert_eq!(isqrt_u64(999_999), 999);
}

#[test]
fn sine_is_exact_at_cardinal_angles() {
    assert_eq!(sin_deg(0), 0);
    assert_eq!(sin_deg(90_000), 1000);
    assert_eq!(sin_deg(180_000), 0);
    assert_eq!(sin_deg(270_000), -1000);
    assert_eq!(sin_deg(-90_000), -1000);
    assert_eq!(cos_deg(0), 1000);
    assert_eq!(cos_deg(90_000), 0);
    assert_eq!(cos_deg(180_000), -1000);
    assert_eq!(cos_deg(270_000), 0);
}

#[test]
fn sine_matches_the_rational_approximation() {
    // The approximation is exact at thirty degrees and close elsewhere.
    assert_eq!(sin_deg(30_000), 500);
    assert_eq!(cos_deg(60_000), 500);
    assert_eq!(sin_deg(45_000), 705);
}

#[test]
fn sine_wraps_full_turns() {
    assert_eq!(sin_deg(390_000), 500);
    assert_eq!(sin_deg(-330_000), 500);
    assert_eq!(cos_deg(360_000), 1000);
}

#[test]
fn vector_normalization_rescales_to_unit() {
    let v = Vec3 { x: 3000, y: 4000, z: 0 };
    let n = v.normalized();
    assert_eq!(n, Vec3 { x: 600, y: 800, z: 0 });
    let axis = Vec3 { x: 0, y: 0, z: -1000 };
    assert_eq!(axis.normalized(), axis);
    let zero = Vec3 { x: 0, y: 0, z: 0 };
    assert_eq!(zero.normalized(), zero);
}

#[test]
fn cross_product_is_perpendicular() {
    let a = Vec3 { x: 123, y: -456, z: 789 };
    let b = Vec3 { x: -321, y: 654, z: -987 };
    let c = a.cross(b);
    assert_eq!(a.dot(c), 0);
    assert_eq!(b.dot(c), 0);
}

#[test]
fn overlap_is_symmetric() {
    let a = AABBBoundingBox {
        x_min: -1000,
        x_max: 1000,
        y_min: 0,
        y_max: 2000,
        z_min: -500,
        z_max: 500,
    };
    let b = AABBBoundingBox {
        x_min: 500,
        x_max: 1500,
        y_min: 1000,
        y_max: 3000,
        z_min: 0,
        z_max: 100,
    };
    let c = AABBBoundingBox {
        x_min: 5000,
        x_max: 6000,
        y_min: 0,
        y_max: 1000,
        z_min: 0,
        z_max: 1000,
    };
    assert_eq!(a.collides_with(b), b.collides_with(a));
    assert!(a.collides_with(b));
    assert_eq!(a.collides_with(c), c.collides_with(a));
    assert!(!a.collides_with(c));
}

#[test]
fn touching_faces_count_as_collision() {
    let a = AABBBoundingBox {
        x_min: -1000,
        x_max: 0,
        y_min: 0,
        y_max: 1000,
        z_min: 0,
        z_max: 1000,
    };
    let b = AABBBoundingBox {
        x_min: 0,
        x_max: 1000,
        y_min: 500,
        y_max: 1500,
        z_min: 200,
        z_max: 800,
    };
    assert!(a.collides_with(b));
    assert!(b.collides_with(a));
}

#[test]
fn rotation_of_zero_angles_is_identity() {
    let r = Rotation { angle_x: 0, angle_y: 0, angle_z: 0 };
    assert_eq!(r.rotation_matrix(), Mat4::identity());
}

#[test]
fn quarter_turn_rotation_swaps_axes() {
    let r = Rotation { angle_x: 0, angle_y: 90_000, angle_z: 0 };
    let m = r.rotation_matrix();
    // A rotation of ninety degrees about y sends +x to -z and +z to +x.
    assert_eq!(m.x.x, 0);
    assert_eq!(m.x.z, -1000);
    assert_eq!(m.z.x, 1000);
    assert_eq!(m.z.z, 0);
    assert_eq!(m.y.y, 1000);
}

#[test]
fn perspective_projection_entries() {
    let m = scene_core::mat4::perspective(90_000, 1000, 100, 100_000);
    assert_eq!(m.x.x, 1000);
    assert_eq!(m.y.y, 1000);
    assert_eq!(m.z.z, -1002);
    assert_eq!(m.z.w, -1000);
    assert_eq!(m.w.z, -200);
    assert_eq!(m.w.w, 0);
}

#[test]
fn translation_stripping_zeroes_the_last_column() {
    let t = Mat4::from_translation(Vec3 { x: 123, y: 456, z: 789 });
    let stripped = t.without_translation();
    assert_eq!(stripped.w.x, 0);
    assert_eq!(stripped.w.y, 0);
    assert_eq!(stripped.w.z, 0);
    assert_eq!(stripped.w.w, 1000);
    assert_eq!(stripped.x, t.x);
}
