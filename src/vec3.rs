//! Integer 3-vectors and their mathematical model.
use vstd::prelude::*;
use vstd::arithmetic::mul::{
    lemma_mul_is_associative, lemma_mul_is_commutative, lemma_mul_is_distributive_sub,
    lemma_mul_unary_negation,
};

verus! {

/// Grid steps per scene unit: a scene coordinate `c` stands for `c / UNIT`.
pub const UNIT: i64 = 1110;

/// Largest magnitude of a point coordinate (vertex, ray origin) that the
/// ray test accepts; it keeps every intermediate product inside `i128`.
pub const MAX_COORD: i64 = 65536;

/// Largest magnitude of a ray direction component that the ray test accepts.
pub const MAX_DIR: i64 = 262144;

/// A vector of mathematical integers: the model of `Vec3` and `Wide3`.
pub struct V3 {
    pub x: int,
    pub y: int,
    pub z: int,
}

pub open spec fn v3(x: int, y: int, z: int) -> V3 {
    V3 { x, y, z }
}

pub open spec fn vadd(a: V3, b: V3) -> V3 {
    v3(a.x + b.x, a.y + b.y, a.z + b.z)
}

pub open spec fn vsub(a: V3, b: V3) -> V3 {
    v3(a.x - b.x, a.y - b.y, a.z - b.z)
}

pub open spec fn scale(k: int, a: V3) -> V3 {
    v3(k * a.x, k * a.y, k * a.z)
}

pub open spec fn neg(a: V3) -> V3 {
    v3(-a.x, -a.y, -a.z)
}

pub open spec fn dot(a: V3, b: V3) -> int {
    a.x * b.x + a.y * b.y + a.z * b.z
}

pub open spec fn cross(a: V3, b: V3) -> V3 {
    v3(a.y * b.z - a.z * b.y, a.z * b.x - a.x * b.z, a.x * b.y - a.y * b.x)
}

/// Squared Euclidean length.
pub open spec fn norm2(a: V3) -> int {
    dot(a, a)
}

pub open spec fn abs(x: int) -> int {
    if x < 0 { -x } else { x }
}

/// Every component has magnitude at most `m`.
pub open spec fn bounded(a: V3, m: int) -> bool {
    abs(a.x) <= m && abs(a.y) <= m && abs(a.z) <= m
}

/// A point or direction on the integer grid.
#[derive(Clone, Copy, Debug, PartialEq, Eq)]
pub struct Vec3 {
    pub x: i64,
    pub y: i64,
    pub z: i64,
}

impl View for Vec3 {
    type V = V3;

    open spec fn view(&self) -> V3 {
        v3(self.x as int, self.y as int, self.z as int)
    }
}

impl Vec3 {
    pub fn new(x: i64, y: i64, z: i64) -> (r: Vec3)
        ensures
            r@ == v3(x as int, y as int, z as int),
    {
        Vec3 { x, y, z }
    }

    /// `self - o`, for points within `MAX_COORD`.
    pub fn minus(&self, o: &Vec3) -> (r: Vec3)
        requires
            bounded(self@, MAX_COORD as int),
            bounded(o@, MAX_COORD as int),
        ensures
            r@ == vsub(self@, o@),
    {
        Vec3 { x: self.x - o.x, y: self.y - o.y, z: self.z - o.z }
    }

    pub fn to_wide(&self) -> (r: Wide3)
        ensures
            r@ == self@,
    {
        Wide3 { x: self.x as i128, y: self.y as i128, z: self.z as i128 }
    }
}

/// A vector with `i128` components, for the products of the ray test.
#[derive(Clone, Copy, Debug, PartialEq, Eq)]
pub struct Wide3 {
    pub x: i128,
    pub y: i128,
    pub z: i128,
}

impl View for Wide3 {
    type V = V3;

    open spec fn view(&self) -> V3 {
        v3(self.x as int, self.y as int, self.z as int)
    }
}

pub proof fn lemma_mul_abs_le(a: int, b: int, m: int, n: int)
    requires
        abs(a) <= m,
        abs(b) <= n,
    ensures
        abs(a * b) <= m * n,
        0 <= m * n,
{
    assert(abs(a) * abs(b) <= m * n && 0 <= m * n && abs(a * b) == abs(a) * abs(b))
        by (nonlinear_arith)
        requires
            abs(a) <= m,
            abs(b) <= n,
            abs(a) == if a < 0 { -a } else { a },
            abs(b) == if b < 0 { -b } else { b },
            abs(a * b) == if a * b < 0 { -(a * b) } else { a * b },
    ;
}

/// Mathematical products of bounded vectors are bounded.
pub proof fn lemma_cross_dot_bounds(a: V3, b: V3, m: int, n: int)
    requires
        bounded(a, m),
        bounded(b, n),
    ensures
        bounded(cross(a, b), 2 * (m * n)),
        abs(dot(a, b)) <= 3 * (m * n),
{
    lemma_mul_abs_le(a.x, b.x, m, n);
    lemma_mul_abs_le(a.x, b.y, m, n);
    lemma_mul_abs_le(a.x, b.z, m, n);
    lemma_mul_abs_le(a.y, b.x, m, n);
    lemma_mul_abs_le(a.y, b.y, m, n);
    lemma_mul_abs_le(a.y, b.z, m, n);
    lemma_mul_abs_le(a.z, b.x, m, n);
    lemma_mul_abs_le(a.z, b.y, m, n);
    lemma_mul_abs_le(a.z, b.z, m, n);
}

/// The cross product `a × b`.
pub fn wide_cross(a: &Wide3, b: &Wide3, Ghost(m): Ghost<int>, Ghost(n): Ghost<int>) -> (r: Wide3)
    requires
        bounded(a@, m),
        bounded(b@, n),
        m * n <= 0x1000_0000_0000_0000_0000_0000_0000_0000,
    ensures
        r@ == cross(a@, b@),
        bounded(r@, 2 * (m * n)),
{
    proof {
        lemma_cross_dot_bounds(a@, b@, m, n);
        lemma_mul_abs_le(a.x as int, b.y as int, m, n);
        lemma_mul_abs_le(a.x as int, b.z as int, m, n);
        lemma_mul_abs_le(a.y as int, b.x as int, m, n);
        lemma_mul_abs_le(a.y as int, b.z as int, m, n);
        lemma_mul_abs_le(a.z as int, b.x as int, m, n);
        lemma_mul_abs_le(a.z as int, b.y as int, m, n);
    }
    Wide3 {
        x: a.y * b.z - a.z * b.y,
        y: a.z * b.x - a.x * b.z,
        z: a.x * b.y - a.y * b.x,
    }
}

/// The dot product `a · b`.
pub fn wide_dot(a: &Wide3, b: &Wide3, Ghost(m): Ghost<int>, Ghost(n): Ghost<int>) -> (r: i128)
    requires
        bounded(a@, m),
        bounded(b@, n),
        m * n <= 0x1000_0000_0000_0000_0000_0000_0000_0000,
    ensures
        r == dot(a@, b@),
        abs(r as int) <= 3 * (m * n),
{
    proof {
        lemma_cross_dot_bounds(a@, b@, m, n);
        lemma_mul_abs_le(a.x as int, b.x as int, m, n);
        lemma_mul_abs_le(a.y as int, b.y as int, m, n);
        lemma_mul_abs_le(a.z as int, b.z as int, m, n);
    }
    a.x * b.x + a.y * b.y + a.z * b.z
}

proof fn lemma_triple_expanded(
    ax: int,
    ay: int,
    az: int,
    bx: int,
    by: int,
    bz: int,
    cx: int,
    cy: int,
    cz: int,
)
    ensures
        ax * (by * cz - bz * cy) + ay * (bz * cx - bx * cz) + az * (bx * cy - by * cx) == bx * (cy
            * az - cz * ay) + by * (cz * ax - cx * az) + bz * (cx * ay - cy * ax),
{
    lemma_mul_is_distributive_sub(ax, by * cz, bz * cy);
    lemma_mul_is_distributive_sub(ay, bz * cx, bx * cz);
    lemma_mul_is_distributive_sub(az, bx * cy, by * cx);
    lemma_mul_is_distributive_sub(bx, cy * az, cz * ay);
    lemma_mul_is_distributive_sub(by, cz * ax, cx * az);
    lemma_mul_is_distributive_sub(bz, cx * ay, cy * ax);
    lemma_rotate3(ax, by, cz);
    lemma_rotate3(ax, bz, cy);
    lemma_rotate3(ay, bz, cx);
    lemma_rotate3(ay, bx, cz);
    lemma_rotate3(az, bx, cy);
    lemma_rotate3(az, by, cx);
}

proof fn lemma_rotate3(x: int, y: int, z: int)
    ensures
        x * (y * z) == y * (z * x),
{
    lemma_mul_is_associative(x, y, z);
    lemma_mul_is_commutative(x, y);
    lemma_mul_is_associative(y, x, z);
    lemma_mul_is_commutative(x, z);
}

/// The triple product is invariant under rotation of its arguments.
pub proof fn lemma_triple_product(a: V3, b: V3, c: V3)
    ensures
        dot(a, cross(b, c)) == dot(b, cross(c, a)),
{
    lemma_triple_expanded(a.x, a.y, a.z, b.x, b.y, b.z, c.x, c.y, c.z);
}

/// The dot product is linear in its first argument.
pub proof fn lemma_dot_linear(a: V3, b: V3, k: int, c: V3)
    ensures
        dot(vadd(a, b), c) == dot(a, c) + dot(b, c),
        dot(vsub(a, b), c) == dot(a, c) - dot(b, c),
        dot(scale(k, a), c) == k * dot(a, c),
{
    broadcast use vstd::arithmetic::mul::group_mul_is_commutative_and_distributive;

    lemma_mul_is_associative(k, a.x, c.x);
    lemma_mul_is_associative(k, a.y, c.y);
    lemma_mul_is_associative(k, a.z, c.z);
}

/// The cross product is linear in its first argument.
pub proof fn lemma_cross_linear(a: V3, b: V3, k: int, c: V3)
    ensures
        cross(vadd(a, b), c) == vadd(cross(a, c), cross(b, c)),
        cross(vsub(a, b), c) == vsub(cross(a, c), cross(b, c)),
        cross(scale(k, a), c) == scale(k, cross(a, c)),
{
    broadcast use vstd::arithmetic::mul::group_mul_is_commutative_and_distributive;

    lemma_mul_is_associative(k, a.x, c.y);
    lemma_mul_is_associative(k, a.x, c.z);
    lemma_mul_is_associative(k, a.y, c.x);
    lemma_mul_is_associative(k, a.y, c.z);
    lemma_mul_is_associative(k, a.z, c.x);
    lemma_mul_is_associative(k, a.z, c.y);
}

/// `a × a` is zero and `b × a == −(a × b)`.
pub proof fn lemma_cross_antisymmetric(a: V3, b: V3)
    ensures
        cross(a, a) == v3(0, 0, 0),
        cross(b, a) == neg(cross(a, b)),
{
    lemma_mul_is_commutative(a.x, a.y);
    lemma_mul_is_commutative(a.y, a.z);
    lemma_mul_is_commutative(a.z, a.x);
    lemma_mul_is_commutative(a.x, b.y);
    lemma_mul_is_commutative(a.x, b.z);
    lemma_mul_is_commutative(a.y, b.x);
    lemma_mul_is_commutative(a.y, b.z);
    lemma_mul_is_commutative(a.z, b.x);
    lemma_mul_is_commutative(a.z, b.y);
}

/// A dot product with the zero vector, or with a negated vector.
pub proof fn lemma_dot_zero_neg(a: V3, b: V3)
    ensures
        dot(a, v3(0, 0, 0)) == 0,
        dot(a, neg(b)) == -dot(a, b),
{
    broadcast use vstd::arithmetic::mul::group_mul_basics;

    lemma_mul_unary_negation(a.x, b.x);
    lemma_mul_unary_negation(a.y, b.y);
    lemma_mul_unary_negation(a.z, b.z);
}

/// The dot product is symmetric.
pub proof fn lemma_dot_comm(a: V3, b: V3)
    ensures
        dot(a, b) == dot(b, a),
{
    lemma_mul_is_commutative(a.x, b.x);
    lemma_mul_is_commutative(a.y, b.y);
    lemma_mul_is_commutative(a.z, b.z);
}

/// `a × b` is perpendicular to `a` and to `b`.
pub proof fn lemma_cross_perpendicular(a: V3, b: V3)
    ensures
        dot(a, cross(a, b)) == 0,
        dot(b, cross(a, b)) == 0,
{
    lemma_triple_product(a, a, b);
    lemma_triple_product(b, a, b);
    lemma_cross_antisymmetric(a, b);
    lemma_cross_antisymmetric(b, a);
    lemma_dot_zero_neg(a, cross(a, b));
    lemma_dot_zero_neg(a, b);
}

} // verus!
