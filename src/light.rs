//! Point lights.
use vstd::prelude::*;
use crate::triangle::Color;
use crate::vec3::Vec3;

verus! {

/// A point light: a position on the grid, a color, and an intensity in
/// hundredths.
#[derive(Clone, Copy, Debug, PartialEq, Eq)]
pub struct PointLight {
    pub position: Vec3,
    pub color: Color,
    pub intensity: u32,
}

} // verus!
