//! Triangles with a derived normal, and flat colors.
use vstd::prelude::*;
use crate::normal::{is_unit_normal, lemma_unit_normal_length, unit_normal, MAX_NORMAL, NORMAL_SCALE};
use crate::vec3::{
    bounded, cross, dot, lemma_cross_perpendicular, lemma_dot_comm, norm2, v3, vsub, V3, Vec3,
    Wide3, wide_cross, MAX_COORD,
};

verus! {

/// A flat color; each channel is in hundredths, `0..=100`.
#[derive(Clone, Copy, Debug, PartialEq, Eq)]
pub struct Color {
    pub r: u8,
    pub g: u8,
    pub b: u8,
}

impl Color {
    pub open spec fn wf(&self) -> bool {
        self.r <= 100 && self.g <= 100 && self.b <= 100
    }

    pub fn new(r: u8, g: u8, b: u8) -> (c: Color)
        requires
            r <= 100,
            g <= 100,
            b <= 100,
        ensures
            c == (Color { r, g, b }),
            c.wf(),
    {
        Color { r, g, b }
    }
}

/// The (unnormalized) normal of the triangle `v0 v1 v2`: `(v2 − v0) × (v1 − v0)`.
pub open spec fn normal_of(v0: V3, v1: V3, v2: V3) -> V3 {
    cross(vsub(v2, v0), vsub(v1, v0))
}

/// A triangular surface.
///
/// `normal` is the unit normal in fixed point: `(v2 − v0) × (v1 − v0)`
/// scaled to length `NORMAL_SCALE`, each component rounded toward zero.
/// `area_normal` holds that cross product exactly (its length is twice the
/// area); shading uses it, dividing by its length exactly. Both are zero
/// for a triangle of zero area.
#[derive(Clone, Copy, Debug, PartialEq, Eq)]
pub struct Triangle {
    pub v0: Vec3,
    pub v1: Vec3,
    pub v2: Vec3,
    pub normal: Vec3,
    pub area_normal: Vec3,
    pub color: Color,
}

impl Triangle {
    /// Every vertex coordinate is within `MAX_COORD`.
    pub open spec fn in_bounds(&self) -> bool {
        &&& bounded(self.v0@, MAX_COORD as int)
        &&& bounded(self.v1@, MAX_COORD as int)
        &&& bounded(self.v2@, MAX_COORD as int)
    }

    pub open spec fn wf(&self) -> bool {
        &&& self.in_bounds()
        &&& self.area_normal@ == normal_of(self.v0@, self.v1@, self.v2@)
        &&& is_unit_normal(self.normal@, self.area_normal@)
    }

    pub fn new(v0: Vec3, v1: Vec3, v2: Vec3, color: Color) -> (t: Triangle)
        requires
            bounded(v0@, MAX_COORD as int),
            bounded(v1@, MAX_COORD as int),
            bounded(v2@, MAX_COORD as int),
        ensures
            t.v0 == v0,
            t.v1 == v1,
            t.v2 == v2,
            t.color == color,
            t.wf(),
    {
        let zero = Vec3 { x: 0, y: 0, z: 0 };
        let mut t = Triangle { v0, v1, v2, color, normal: zero, area_normal: zero };
        t.recompute_normal();
        t
    }

    /// Derives `area_normal` and `normal` from the current vertices.
    pub fn recompute_normal(&mut self)
        requires
            old(self).in_bounds(),
        ensures
            final(self).v0 == old(self).v0,
            final(self).v1 == old(self).v1,
            final(self).v2 == old(self).v2,
            final(self).color == old(self).color,
            final(self).wf(),
    {
        let e1: Wide3 = self.v1.minus(&self.v0).to_wide();
        let e2: Wide3 = self.v2.minus(&self.v0).to_wide();
        let c = wide_cross(&e2, &e1, Ghost(2 * MAX_COORD as int), Ghost(2 * MAX_COORD as int));
        assert(2 * (2 * MAX_COORD as int * (2 * MAX_COORD as int)) == MAX_NORMAL as int);
        let area = Vec3 { x: c.x as i64, y: c.y as i64, z: c.z as i64 };
        self.normal = unit_normal(&area);
        self.area_normal = area;
    }
}

/// The exact normal is `(v2 − v0) × (v1 − v0)`, perpendicular to both edges
/// `v1 − v0` and `v2 − v0`.
pub proof fn lemma_normal_perpendicular(t: Triangle)
    requires
        t.wf(),
    ensures
        t.area_normal@ == cross(vsub(t.v2@, t.v0@), vsub(t.v1@, t.v0@)),
        dot(t.area_normal@, vsub(t.v1@, t.v0@)) == 0,
        dot(t.area_normal@, vsub(t.v2@, t.v0@)) == 0,
{
    let e1 = vsub(t.v1@, t.v0@);
    let e2 = vsub(t.v2@, t.v0@);
    lemma_cross_perpendicular(e2, e1);
    lemma_dot_comm(e1, cross(e2, e1));
    lemma_dot_comm(e2, cross(e2, e1));
}

/// The normal of a triangle of nonzero area has unit length within a
/// relative `10⁻⁵` (at scale `NORMAL_SCALE`) and the orientation of
/// `(v2 − v0) × (v1 − v0)`.
pub proof fn lemma_unit_normal(t: Triangle)
    requires
        t.wf(),
        t.area_normal@ != v3(0, 0, 0),
    ensures
        norm2(t.normal@) <= NORMAL_SCALE * NORMAL_SCALE,
        10_000_000_000 * norm2(t.normal@) >= (NORMAL_SCALE * NORMAL_SCALE) * (99_999 * 99_999),
        dot(t.normal@, cross(vsub(t.v2@, t.v0@), vsub(t.v1@, t.v0@))) > 0,
{
    let c = t.area_normal@;
    assert(norm2(c) > 0) by (nonlinear_arith)
        requires
            c.x != 0 || c.y != 0 || c.z != 0,
            norm2(c) == c.x * c.x + c.y * c.y + c.z * c.z,
    ;
    lemma_unit_normal_length(t.normal@, c);
}

} // verus!
