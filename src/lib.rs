//! A small ray caster over a triangle scene, in exact integer arithmetic.
//!
//! Positions are integer points of a fixed grid (`UNIT` grid steps per scene
//! unit). Ray parameters and hit points are exact rationals, and shading
//! compares squares, so no step rounds.
pub mod vec3;
pub mod normal;
pub mod triangle;
pub mod light;
pub mod raycast;
pub mod scene;
pub mod render;

pub use light::PointLight;
pub use raycast::{nearest_hit, ray_intersects_triangle, Intersection};
pub use render::{
    camera_origin, camera_ray, get_pixel_color, render, shade, Pixel, HEIGHT, MAX_SIDE, WIDTH,
};
pub use scene::{load_cornell_box_scene, Scene};
pub use triangle::{Color, Triangle};
pub use normal::NORMAL_SCALE;
pub use vec3::{Vec3, Wide3, MAX_COORD, MAX_DIR, UNIT};
