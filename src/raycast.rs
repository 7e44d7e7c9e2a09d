//! The ray–triangle test and the nearest-hit selection.
use vstd::prelude::*;
use vstd::arithmetic::mul::{lemma_mul_is_distributive_sub, lemma_mul_unary_negation};
use crate::triangle::Triangle;
use crate::vec3::{
    abs, bounded, cross, dot, lemma_cross_antisymmetric, lemma_cross_linear,
    lemma_cross_perpendicular, lemma_dot_comm, lemma_dot_linear, lemma_dot_zero_neg,
    lemma_mul_abs_le, lemma_triple_product, scale, vadd, vsub, wide_cross, wide_dot, V3, Vec3,
    Wide3, MAX_COORD, MAX_DIR,
};

verus! {

/// The inverse of the tolerance of the ray test, `1 / 10⁻⁷`.
pub const EPSILON_INV: i128 = 10_000_000;

/// `UNIT³`: a determinant of one cubic scene unit, in grid steps.
pub const UNIT_CUBED: i128 = 1_367_631_000;

/// Bound on the denominator and on the parameter numerator of a hit.
pub const MAX_DET: i128 = 0x80_0000_0000_0000;

/// `x` with the sign of `a` applied.
pub open spec fn signed(a: int, x: int) -> int {
    if a < 0 { -x } else { x }
}

/// The quantities of the ray test, scaled by a common positive denominator
/// `det`: barycentric coordinates `u / det` and `v / det` along the edges
/// `v1 − v0` and `v2 − v0`, and the ray parameter `t / det`.
pub struct Hit {
    pub u: int,
    pub v: int,
    pub t: int,
    pub det: int,
}

/// The Möller–Trumbore quantities of the ray `o + t·d` against `tri`.
/// `det` is zero exactly when the ray is parallel to the triangle's plane
/// (or the triangle has zero area).
pub open spec fn mt(o: V3, d: V3, tri: Triangle) -> Hit {
    let e1 = vsub(tri.v1@, tri.v0@);
    let e2 = vsub(tri.v2@, tri.v0@);
    let h = cross(d, e2);
    let a = dot(e1, h);
    let s = vsub(o, tri.v0@);
    let q = cross(s, e1);
    Hit { u: signed(a, dot(s, h)), v: signed(a, dot(d, q)), t: signed(a, dot(e2, q)), det: abs(a) }
}

/// The ray is not parallel to the triangle's plane: the determinant is at
/// least `10⁻⁷` cubic scene units.
pub open spec fn not_parallel(h: Hit) -> bool {
    h.det * EPSILON_INV >= UNIT_CUBED
}

/// The ray meets the triangle (edges included) more than `10⁻⁷` direction
/// lengths in front of its origin, and is not parallel to it.
pub open spec fn ray_hits(o: V3, d: V3, tri: Triangle) -> bool {
    let h = mt(o, d, tri);
    &&& not_parallel(h)
    &&& 0 <= h.u <= h.det
    &&& 0 <= h.v
    &&& h.u + h.v <= h.det
    &&& h.t * EPSILON_INV > h.det
}

/// The hit point scaled by `h.det`: `det·v0 + u·(v1 − v0) + v·(v2 − v0)`.
pub open spec fn position_of(tri: Triangle, h: Hit) -> V3 {
    vadd(
        vadd(scale(h.det, tri.v0@), scale(h.u, vsub(tri.v1@, tri.v0@))),
        scale(h.v, vsub(tri.v2@, tri.v0@)),
    )
}

/// `a` lies strictly before `b` along the ray: `a.t / a.det < b.t / b.det`.
pub open spec fn t_less(a: Hit, b: Hit) -> bool {
    a.t * b.det < b.t * a.det
}

/// Triangle `i` is the nearest one that the ray hits, and the first of the
/// nearest where several lie at the same distance.
pub open spec fn is_nearest(o: V3, d: V3, tris: Seq<Triangle>, i: int) -> bool {
    &&& 0 <= i < tris.len()
    &&& ray_hits(o, d, tris[i])
    &&& forall|j: int|
        0 <= j < tris.len() && #[trigger] ray_hits(o, d, tris[j]) ==> {
            &&& !t_less(mt(o, d, tris[j]), mt(o, d, tris[i]))
            &&& (j < i ==> t_less(mt(o, d, tris[i]), mt(o, d, tris[j])))
        }
}

/// The ray hits none of the triangles.
pub open spec fn no_hit(o: V3, d: V3, tris: Seq<Triangle>) -> bool {
    forall|j: int| 0 <= j < tris.len() ==> !#[trigger] ray_hits(o, d, tris[j])
}

/// The ray's origin and direction are within the bounds the test accepts.
pub open spec fn ray_ok(o: V3, d: V3) -> bool {
    bounded(o, MAX_COORD as int) && bounded(d, MAX_DIR as int)
}

/// Every triangle is well formed.
pub open spec fn all_wf(tris: Seq<Triangle>) -> bool {
    forall|j: int| 0 <= j < tris.len() ==> (#[trigger] tris[j]).wf()
}

/// A hit of the ray test: the point `position / det` at parameter `t / det`,
/// with barycentric coordinates `u / det` and `v / det`.
#[derive(Clone, Copy, Debug, PartialEq, Eq)]
pub struct Intersection {
    pub position: Wide3,
    pub t: i128,
    pub det: i128,
    pub u: i128,
    pub v: i128,
}

impl View for Intersection {
    type V = Hit;

    open spec fn view(&self) -> Hit {
        Hit { u: self.u as int, v: self.v as int, t: self.t as int, det: self.det as int }
    }
}

impl Intersection {
    pub open spec fn wf(&self) -> bool {
        0 < self.det <= MAX_DET && 0 < self.t <= MAX_DET
    }
}

/// `k0·a + k1·b + k2·c`.
fn combine(k0: i128, a: &Wide3, k1: i128, b: &Wide3, k2: i128, c: &Wide3) -> (r: Wide3)
    requires
        abs(k0 as int) <= MAX_DET,
        abs(k1 as int) <= MAX_DET,
        abs(k2 as int) <= MAX_DET,
        bounded(a@, 2 * MAX_COORD as int),
        bounded(b@, 2 * MAX_COORD as int),
        bounded(c@, 2 * MAX_COORD as int),
    ensures
        r@ == vadd(vadd(scale(k0 as int, a@), scale(k1 as int, b@)), scale(k2 as int, c@)),
{
    let ghost m: int = MAX_DET as int;
    let ghost n: int = 0x2_0000;
    proof {
        lemma_mul_abs_le(k0 as int, a.x as int, m, n);
        lemma_mul_abs_le(k0 as int, a.y as int, m, n);
        lemma_mul_abs_le(k0 as int, a.z as int, m, n);
        lemma_mul_abs_le(k1 as int, b.x as int, m, n);
        lemma_mul_abs_le(k1 as int, b.y as int, m, n);
        lemma_mul_abs_le(k1 as int, b.z as int, m, n);
        lemma_mul_abs_le(k2 as int, c.x as int, m, n);
        lemma_mul_abs_le(k2 as int, c.y as int, m, n);
        lemma_mul_abs_le(k2 as int, c.z as int, m, n);
    }
    Wide3 {
        x: k0 * a.x + k1 * b.x + k2 * c.x,
        y: k0 * a.y + k1 * b.y + k2 * c.y,
        z: k0 * a.z + k1 * b.z + k2 * c.z,
    }
}

/// The Möller–Trumbore test of the ray `ray_origin + t·ray_vector` against
/// `triangle`. A ray parallel to the triangle's plane, and a triangle of zero
/// area, give no hit; so does a hit at or behind the origin. The direction
/// need not be normalized: `t` is measured in units of it. The tolerance is
/// `10⁻⁷`: a determinant below `10⁻⁷` cubic scene units counts as parallel,
/// and a hit must lie more than `10⁻⁷` direction lengths ahead. No cutoff
/// for far hits is needed: with the coordinates bounded, every hit lies
/// less than `10⁷` direction lengths from the origin.
pub fn ray_intersects_triangle(ray_origin: &Vec3, ray_vector: &Vec3, triangle: &Triangle) -> (r:
    Option<Intersection>)
    requires
        ray_ok(ray_origin@, ray_vector@),
        triangle.in_bounds(),
    ensures
        r is Some <==> ray_hits(ray_origin@, ray_vector@, *triangle),
        r matches Some(i) ==> {
            &&& i@ == mt(ray_origin@, ray_vector@, *triangle)
            &&& i.position@ == position_of(*triangle, i@)
            &&& i.wf()
            &&& i.t < 10_000_000 * i.det
        },
{
    // Bounds: edges and `s` within 2^17, the direction within 2^18.
    let ghost p: int = 0x2_0000;
    let ghost dm: int = 0x4_0000;
    let ghost ph: int = 0x10_0000_0000;
    let ghost pp: int = 0x8_0000_0000;
    let v0 = triangle.v0.to_wide();
    let edge1 = triangle.v1.minus(&triangle.v0).to_wide();
    let edge2 = triangle.v2.minus(&triangle.v0).to_wide();
    let dir = ray_vector.to_wide();
    let h = wide_cross(&dir, &edge2, Ghost(dm), Ghost(p));
    let a = wide_dot(&edge1, &h, Ghost(p), Ghost(ph));
    let det: i128 = if a < 0 { -a } else { a };
    if det * EPSILON_INV < UNIT_CUBED {
        // The ray is parallel to the triangle's plane.
        return None;
    }
    let s = ray_origin.minus(&triangle.v0).to_wide();
    let su = wide_dot(&s, &h, Ghost(p), Ghost(ph));
    let u: i128 = if a < 0 { -su } else { su };
    if u < 0 || u > det {
        return None;
    }
    let q = wide_cross(&s, &edge1, Ghost(p), Ghost(p));
    let sv = wide_dot(&dir, &q, Ghost(dm), Ghost(pp));
    let v: i128 = if a < 0 { -sv } else { sv };
    if v < 0 || u + v > det {
        return None;
    }
    let st = wide_dot(&edge2, &q, Ghost(p), Ghost(pp));
    let t: i128 = if a < 0 { -st } else { st };
    if t * EPSILON_INV <= det {
        return None;
    }
    let position = combine(det, &v0, u, &edge1, v, &edge2);
    proof {
        lemma_hit_not_far(ray_origin@, ray_vector@, *triangle);
    }
    Some(Intersection { position, t, det, u, v })
}

/// `a < b` and `b ≤ c` along the ray give `a < c`.
proof fn lemma_lt_le(a: Hit, b: Hit, c: Hit)
    requires
        a.det > 0,
        b.det > 0,
        c.det > 0,
        t_less(a, b),
        !t_less(c, b),
    ensures
        t_less(a, c),
{
    assert(a.t * c.det < c.t * a.det) by (nonlinear_arith)
        requires
            a.det > 0,
            b.det > 0,
            c.det > 0,
            a.t * b.det < b.t * a.det,
            b.t * c.det <= c.t * b.det,
    {
        assert(a.t * b.det * c.det < b.t * a.det * c.det);
        assert(b.t * c.det * a.det <= c.t * b.det * a.det);
    }
}

/// Runs the ray test against every triangle and keeps the hit with the
/// smallest parameter, with the index of its triangle; the first of equal
/// minima wins. `None` when no triangle is hit.
pub fn nearest_hit(ray_origin: &Vec3, ray_dir: &Vec3, triangles: &Vec<Triangle>) -> (r: Option<
    (usize, Intersection),
>)
    requires
        ray_ok(ray_origin@, ray_dir@),
        all_wf(triangles@),
    ensures
        r is None <==> no_hit(ray_origin@, ray_dir@, triangles@),
        r matches Some((i, hit)) ==> {
            &&& is_nearest(ray_origin@, ray_dir@, triangles@, i as int)
            &&& hit@ == mt(ray_origin@, ray_dir@, triangles@[i as int])
            &&& hit.position@ == position_of(triangles@[i as int], hit@)
        },
{
    let ghost o = ray_origin@;
    let ghost d = ray_dir@;
    let ghost tris = triangles@;
    let mut best: Option<(usize, Intersection)> = None;
    let mut k: usize = 0;
    while k < triangles.len()
        invariant
            k <= tris.len(),
            tris == triangles@,
            o == ray_origin@,
            d == ray_dir@,
            ray_ok(o, d),
            all_wf(tris),
            best is None ==> forall|j: int| 0 <= j < k ==> !#[trigger] ray_hits(o, d, tris[j]),
            best matches Some((bi, bh)) ==> {
                &&& bi < k
                &&& ray_hits(o, d, tris[bi as int])
                &&& bh@ == mt(o, d, tris[bi as int])
                &&& bh.position@ == position_of(tris[bi as int], bh@)
                &&& bh.wf()
                &&& forall|j: int|
                    0 <= j < k && #[trigger] ray_hits(o, d, tris[j]) ==> {
                        &&& !t_less(mt(o, d, tris[j]), bh@)
                        &&& (j < bi ==> t_less(bh@, mt(o, d, tris[j])))
                    }
            },
        decreases tris.len() - k,
    {
        assert(tris[k as int].wf());
        if let Some(hit) = ray_intersects_triangle(ray_origin, ray_dir, &triangles[k]) {
            let closer = match best {
                None => true,
                Some((_, cur)) => {
                    proof {
                        lemma_mul_abs_le(hit.t as int, cur.det as int, MAX_DET as int, MAX_DET as int);
                        lemma_mul_abs_le(cur.t as int, hit.det as int, MAX_DET as int, MAX_DET as int);
                    }
                    hit.t * cur.det < cur.t * hit.det
                },
            };
            if closer {
                proof {
                    if let Some((bi, bh)) = best {
                        assert forall|j: int|
                            0 <= j < k + 1 && #[trigger] ray_hits(o, d, tris[j]) implies {
                                &&& !t_less(mt(o, d, tris[j]), hit@)
                                &&& (j < k ==> t_less(hit@, mt(o, d, tris[j])))
                            } by {
                            if j < k {
                                lemma_lt_le(hit@, bh@, mt(o, d, tris[j]));
                            }
                        }
                    }
                }
                best = Some((k, hit));
            }
        }
        k = k + 1;
    }
    best
}

/// A ray whose direction is perpendicular to a triangle's normal runs
/// parallel to its plane, and misses it.
pub proof fn lemma_parallel_ray_misses(o: V3, d: V3, tri: Triangle)
    requires
        tri.wf(),
        dot(d, tri.area_normal@) == 0,
    ensures
        mt(o, d, tri).det == 0,
        !ray_hits(o, d, tri),
{
    lemma_triple_product(vsub(tri.v1@, tri.v0@), d, vsub(tri.v2@, tri.v0@));
}

/// Of two triangles hit along one ray, the nearer one is selected, in
/// either order.
pub proof fn lemma_nearer_of_two_selected(o: V3, d: V3, near: Triangle, far: Triangle)
    requires
        ray_hits(o, d, near),
        ray_hits(o, d, far),
        t_less(mt(o, d, near), mt(o, d, far)),
    ensures
        is_nearest(o, d, seq![near, far], 0),
        is_nearest(o, d, seq![far, near], 1),
        !is_nearest(o, d, seq![near, far], 1),
        !is_nearest(o, d, seq![far, near], 0),
{
    let s1 = seq![near, far];
    let s2 = seq![far, near];
    assert(s1[0] == near && s1[1] == far);
    assert(s2[0] == far && s2[1] == near);
}

/// Cramer's rule for `−t·d + u·a + v·b = s`, scaled by the determinant:
/// its first component.
proof fn lemma_cramer_x(
    dx: int,
    dy: int,
    dz: int,
    ax: int,
    ay: int,
    az: int,
    bx: int,
    by: int,
    bz: int,
    sx: int,
    sy: int,
    sz: int,
)
    ensures
        (ax * (dy * bz - dz * by) + ay * (dz * bx - dx * bz) + az * (dx * by - dy * bx)) * sx
            == (sx * (dy * bz - dz * by) + sy * (dz * bx - dx * bz) + sz * (dx * by - dy * bx)) * ax
            + (dx * (sy * az - sz * ay) + dy * (sz * ax - sx * az) + dz * (sx * ay - sy * ax)) * bx
            - (bx * (sy * az - sz * ay) + by * (sz * ax - sx * az) + bz * (sx * ay - sy * ax)) * dx,
{
    broadcast use vstd::arithmetic::mul::group_mul_properties;
}

/// The hit point lies on the ray: `position / det == o + (t / det)·d`.
pub proof fn lemma_hit_on_ray(o: V3, d: V3, tri: Triangle)
    requires
        ray_hits(o, d, tri),
    ensures
        position_of(tri, mt(o, d, tri)) == vadd(
            scale(mt(o, d, tri).det, o),
            scale(mt(o, d, tri).t, d),
        ),
{
    let v0 = tri.v0@;
    let a = vsub(tri.v1@, v0);
    let b = vsub(tri.v2@, v0);
    let s = vsub(o, v0);
    let h = cross(d, b);
    let q = cross(s, a);
    let det = dot(a, h);
    let (u, v, t) = (dot(s, h), dot(d, q), dot(b, q));
    lemma_cramer_x(d.x, d.y, d.z, a.x, a.y, a.z, b.x, b.y, b.z, s.x, s.y, s.z);
    lemma_cramer_x(d.y, d.z, d.x, a.y, a.z, a.x, b.y, b.z, b.x, s.y, s.z, s.x);
    lemma_cramer_x(d.z, d.x, d.y, a.z, a.x, a.y, b.z, b.x, b.y, s.z, s.x, s.y);
    lemma_on_ray_component(det, u, v, t, o.x, v0.x, a.x, b.x, d.x);
    lemma_on_ray_component(det, u, v, t, o.y, v0.y, a.y, b.y, d.y);
    lemma_on_ray_component(det, u, v, t, o.z, v0.z, a.z, b.z, d.z);
}

/// One component of the on-ray identity, with the sign of the determinant
/// folded in.
proof fn lemma_on_ray_component(
    det: int,
    u: int,
    v: int,
    t: int,
    ox: int,
    v0x: int,
    ax: int,
    bx: int,
    dx: int,
)
    requires
        det * (ox - v0x) == u * ax + v * bx - t * dx,
    ensures
        abs(det) * v0x + signed(det, u) * ax + signed(det, v) * bx == abs(det) * ox + signed(det, t)
            * dx,
{
    lemma_mul_is_distributive_sub(det, ox, v0x);
    if det < 0 {
        lemma_mul_unary_negation(det, v0x);
        lemma_mul_unary_negation(det, ox);
        lemma_mul_unary_negation(u, ax);
        lemma_mul_unary_negation(v, bx);
        lemma_mul_unary_negation(t, dx);
    }
}

/// `0 ≤ w` and `|x| ≤ m` give `|w·x| ≤ w·m`.
proof fn lemma_scaled_bound(w: int, x: int, m: int)
    requires
        0 <= w,
        abs(x) <= m,
    ensures
        -(w * m) <= w * x <= w * m,
{
    assert(-(w * m) <= w * x <= w * m) by (nonlinear_arith)
        requires
            0 <= w,
            -m <= x <= m,
    ;
}

/// One component of the far-hit bound: the hit point is a convex
/// combination of the vertices, so it lies within `m` of zero, and the ray
/// reaches it with `|d| ≥ 1`.
proof fn lemma_not_far_component(
    det: int,
    u: int,
    v: int,
    t: int,
    ox: int,
    dx: int,
    p0: int,
    p1: int,
    p2: int,
    m: int,
)
    requires
        det > 0,
        0 <= u,
        0 <= v,
        u + v <= det,
        t > 0,
        dx != 0,
        abs(ox) <= m,
        abs(p0) <= m,
        abs(p1) <= m,
        abs(p2) <= m,
        det * p0 + u * (p1 - p0) + v * (p2 - p0) == det * ox + t * dx,
    ensures
        t <= 2 * (det * m),
{
    broadcast use vstd::arithmetic::mul::group_mul_is_distributive;

    let w = det - u - v;
    assert(det * p0 + u * (p1 - p0) + v * (p2 - p0) == w * p0 + u * p1 + v * p2);
    assert(w * m + u * m + v * m == det * m);
    lemma_scaled_bound(w, p0, m);
    lemma_scaled_bound(u, p1, m);
    lemma_scaled_bound(v, p2, m);
    lemma_scaled_bound(det, ox, m);
    assert(t <= abs(t * dx)) by (nonlinear_arith)
        requires
            t > 0,
            dx != 0,
            abs(t * dx) == if t * dx < 0 { -(t * dx) } else { t * dx },
    ;
}

/// A hit lies less than `10⁷` direction lengths from the origin.
pub proof fn lemma_hit_not_far(o: V3, d: V3, tri: Triangle)
    requires
        ray_ok(o, d),
        tri.in_bounds(),
        ray_hits(o, d, tri),
    ensures
        mt(o, d, tri).t < 10_000_000 * mt(o, d, tri).det,
{
    let h = mt(o, d, tri);
    let m = MAX_COORD as int;
    lemma_hit_on_ray(o, d, tri);
    if d.x == 0 && d.y == 0 && d.z == 0 {
        let e2 = vsub(tri.v2@, tri.v0@);
        let z = cross(d, e2);
        assert(z.x == 0 && z.y == 0 && z.z == 0);
        assert(z == crate::vec3::v3(0, 0, 0));
        let e1 = vsub(tri.v1@, tri.v0@);
        vstd::arithmetic::mul::lemma_mul_basics(e1.x);
        vstd::arithmetic::mul::lemma_mul_basics(e1.y);
        vstd::arithmetic::mul::lemma_mul_basics(e1.z);
        assert(dot(e1, z) == 0);
        assert(false);
    }
    if d.x != 0 {
        lemma_not_far_component(h.det, h.u, h.v, h.t, o.x, d.x, tri.v0@.x, tri.v1@.x, tri.v2@.x, m);
    } else if d.y != 0 {
        lemma_not_far_component(h.det, h.u, h.v, h.t, o.y, d.y, tri.v0@.y, tri.v1@.y, tri.v2@.y, m);
    } else {
        lemma_not_far_component(h.det, h.u, h.v, h.t, o.z, d.z, tri.v0@.z, tri.v1@.z, tri.v2@.z, m);
    }
}

/// A ray aimed at a triangle's centroid, with the centroid at `o + d`,
/// hits it there unless it runs parallel to the triangle: at parameter
/// `t = 1`, with barycentric coordinates `u = v = 1/3`.
pub proof fn lemma_centroid_hit(o: V3, d: V3, tri: Triangle)
    requires
        vadd(scale(3, o), scale(3, d)) == vadd(vadd(tri.v0@, tri.v1@), tri.v2@),
        not_parallel(mt(o, d, tri)),
    ensures
        ray_hits(o, d, tri),
        mt(o, d, tri).t == mt(o, d, tri).det,
        3 * mt(o, d, tri).u == mt(o, d, tri).det,
        3 * mt(o, d, tri).v == mt(o, d, tri).det,
        position_of(tri, mt(o, d, tri)) == vadd(
            scale(mt(o, d, tri).det, o),
            scale(mt(o, d, tri).det, d),
        ),
{
    let e1 = vsub(tri.v1@, tri.v0@);
    let e2 = vsub(tri.v2@, tri.v0@);
    let s = vsub(o, tri.v0@);
    let h = cross(d, e2);
    let q = cross(s, e1);
    let a = dot(e1, h);
    let w = vsub(vadd(e1, e2), scale(3, d));
    assert(scale(3, s) == w);
    // 3·(s·h) == a
    lemma_dot_linear(s, s, 3, h);
    lemma_dot_linear(vadd(e1, e2), scale(3, d), 3, h);
    lemma_dot_linear(e1, e2, 3, h);
    lemma_dot_linear(d, d, 3, h);
    lemma_cross_perpendicular(d, e2);
    assert(3 * dot(s, h) == a);
    // cross(3s, e1) == e2 × e1 − 3·(d × e1)
    lemma_cross_linear(s, s, 3, e1);
    lemma_cross_linear(vadd(e1, e2), scale(3, d), 3, e1);
    lemma_cross_linear(e1, e2, 3, e1);
    lemma_cross_linear(d, d, 3, e1);
    lemma_cross_antisymmetric(e1, e2);
    let x = cross(w, e1);
    assert(x == vsub(vadd(cross(e1, e1), cross(e2, e1)), scale(3, cross(d, e1))));
    // 3·(d·q) == a
    lemma_dot_comm(d, q);
    lemma_dot_comm(d, x);
    lemma_dot_linear(q, q, 3, d);
    lemma_dot_linear(vadd(cross(e1, e1), cross(e2, e1)), scale(3, cross(d, e1)), 3, d);
    lemma_dot_linear(cross(e1, e1), cross(e2, e1), 3, d);
    lemma_dot_linear(cross(d, e1), cross(d, e1), 3, d);
    lemma_dot_comm(cross(e1, e1), d);
    lemma_dot_comm(cross(e2, e1), d);
    lemma_dot_comm(cross(d, e1), d);
    lemma_dot_zero_neg(d, d);
    lemma_cross_perpendicular(d, e1);
    lemma_triple_product(e1, d, e2);
    assert(3 * dot(d, q) == a);
    // 3·(e2·q) == 3·a
    lemma_dot_comm(e2, q);
    lemma_dot_comm(e2, x);
    lemma_dot_linear(q, q, 3, e2);
    lemma_dot_linear(vadd(cross(e1, e1), cross(e2, e1)), scale(3, cross(d, e1)), 3, e2);
    lemma_dot_linear(cross(e1, e1), cross(e2, e1), 3, e2);
    lemma_dot_linear(cross(d, e1), cross(d, e1), 3, e2);
    lemma_dot_comm(cross(e1, e1), e2);
    lemma_dot_comm(cross(e2, e1), e2);
    lemma_dot_comm(cross(d, e1), e2);
    lemma_dot_zero_neg(e2, e2);
    lemma_cross_perpendicular(e2, e1);
    lemma_triple_product(e2, d, e1);
    lemma_cross_antisymmetric(e2, e1);
    lemma_dot_zero_neg(d, cross(e2, e1));
    assert(dot(e2, q) == a);
    lemma_hit_on_ray(o, d, tri);
}

} // verus!
