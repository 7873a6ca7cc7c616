//! Core of a first-person 3D scene: camera orientation, axis-aligned bounding
//! boxes and kinematic character physics, together with the per-frame scene
//! update that ties them together.
//!
//! Every scalar quantity is fixed point: an `i64` counts thousandths of a
//! world unit, of a degree or of a second.  The rendering side (shaders,
//! meshes, textures, the window) lives outside this crate and consumes the
//! plain values and draw plans produced here.

pub mod aabb;
pub mod camera;
pub mod fixed;
pub mod kinematics;
pub mod mat4;
pub mod node_3d;
pub mod player_character;
pub mod rotation;
pub mod scene;
pub mod static_body_3d;
pub mod trig;
pub mod vec3;
