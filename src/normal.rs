//! Unit normals in fixed point, by a verified integer square root.
use vstd::prelude::*;
use vstd::arithmetic::div_mod::{lemma_fundamental_div_mod, lemma_mod_pos_bound};
use crate::vec3::{abs, bounded, dot, norm2, V3, Vec3};

verus! {

/// The fixed-point scale of a unit normal: length 1 is `NORMAL_SCALE`.
pub const NORMAL_SCALE: i64 = 0x10_0000;

/// Bound on the components of a cross product of two triangle edges.
pub const MAX_NORMAL: i64 = 0x8_0000_0000;

/// `n` is the component of `c` scaled to unit length, with `len2 = |c|²`,
/// rounded toward zero: `n = sign(c)·⌊NORMAL_SCALE·|c| / √len2⌋`. It is zero
/// when `len2` is zero.
pub open spec fn unit_component(n: int, c: int, len2: int) -> bool {
    let s2 = NORMAL_SCALE * NORMAL_SCALE;
    if len2 == 0 {
        n == 0
    } else {
        &&& (c >= 0 ==> n >= 0)
        &&& (c < 0 ==> n <= 0)
        &&& n * n * len2 <= s2 * (c * c)
        &&& s2 * (c * c) < (abs(n) + 1) * (abs(n) + 1) * len2
    }
}

/// `n` is `c` scaled to length `NORMAL_SCALE`, each component rounded
/// toward zero; zero when `c` is zero.
pub open spec fn is_unit_normal(n: V3, c: V3) -> bool {
    &&& unit_component(n.x, c.x, norm2(c))
    &&& unit_component(n.y, c.y, norm2(c))
    &&& unit_component(n.z, c.z, norm2(c))
}

/// The integer square root: the largest `m` with `m² ≤ q`.
fn isqrt(q: i128) -> (m: i128)
    requires
        0 <= q <= 0x100_0000_0000,
    ensures
        0 <= m,
        m * m <= q < (m + 1) * (m + 1),
{
    let mut lo: i128 = 0;
    let mut hi: i128 = 0x10_0001;
    while hi - lo > 1
        invariant
            0 <= lo < hi <= 0x10_0001,
            lo * lo <= q < hi * hi,
        decreases hi - lo,
    {
        let mid: i128 = lo + (hi - lo) / 2;
        assert(mid * mid <= 0x100_0020_0001) by (nonlinear_arith)
            requires
                0 <= mid <= 0x10_0001,
        ;
        if mid * mid <= q {
            lo = mid;
        } else {
            hi = mid;
        }
    }
    assert(hi == lo + 1);
    lo
}

/// One component of the unit normal of `c`, with `len2 = |c|²`.
fn unit_component_of(c: i64, len2: i128) -> (n: i64)
    requires
        len2 > 0,
        c * c <= len2,
        abs(c as int) <= MAX_NORMAL,
    ensures
        unit_component(n as int, c as int, len2 as int),
        abs(n as int) <= NORMAL_SCALE,
{
    let s2: i128 = 0x100_0000_0000;
    let w = c as i128;
    assert(0 <= w * w <= 0x40_0000_0000_0000_0000) by (nonlinear_arith)
        requires
            -0x8_0000_0000 <= w <= 0x8_0000_0000,
    ;
    let num: i128 = s2 * (w * w);
    let q: i128 = num / len2;
    proof {
        lemma_fundamental_div_mod(num as int, len2 as int);
        lemma_mod_pos_bound(num as int, len2 as int);
        assert(q <= s2) by (nonlinear_arith)
            requires
                len2 > 0,
                0 <= w * w <= len2,
                num == s2 * (w * w),
                num == len2 * q + num % len2,
                0 <= num % len2,
                s2 > 0,
        ;
        assert(q >= 0) by (nonlinear_arith)
            requires
                len2 > 0,
                num >= 0,
                num == len2 * q + num % len2,
                num % len2 < len2,
        ;
    }
    let m = isqrt(q);
    proof {
        assert(m * m * len2 <= num && num < (m + 1) * (m + 1) * len2 && m <= s2) by (nonlinear_arith)
            requires
                len2 > 0,
                0 <= m,
                m * m <= q,
                q + 1 <= (m + 1) * (m + 1),
                q <= s2,
                s2 > 1,
                num == len2 * q + num % len2,
                0 <= num % len2 < len2,
        ;
        assert(m <= 0x10_0000) by (nonlinear_arith)
            requires
                0 <= m,
                m * m <= q,
                q <= 0x100_0000_0000,
        ;
    }
    let n: i64 = if c < 0 {
        -(m as i64)
    } else {
        m as i64
    };
    proof {
        assert(n * n == m * m && abs(n as int) == m) by (nonlinear_arith)
            requires
                n == m || n == -m,
                m >= 0,
        ;
        assert((NORMAL_SCALE * NORMAL_SCALE) as int == s2 as int);
        assert(c * c == w * w);
    }
    n
}

/// The unit normal of `c` in fixed point.
pub fn unit_normal(c: &Vec3) -> (n: Vec3)
    requires
        bounded(c@, MAX_NORMAL as int),
    ensures
        is_unit_normal(n@, c@),
{
    let x = c.x as i128;
    let y = c.y as i128;
    let z = c.z as i128;
    assert(0 <= x * x <= 0x40_0000_0000_0000_0000 && 0 <= y * y <= 0x40_0000_0000_0000_0000 && 0
        <= z * z <= 0x40_0000_0000_0000_0000) by (nonlinear_arith)
        requires
            -0x8_0000_0000 <= x <= 0x8_0000_0000,
            -0x8_0000_0000 <= y <= 0x8_0000_0000,
            -0x8_0000_0000 <= z <= 0x8_0000_0000,
    ;
    let len2: i128 = x * x + y * y + z * z;
    if len2 == 0 {
        return Vec3 { x: 0, y: 0, z: 0 };
    }
    Vec3 {
        x: unit_component_of(c.x, len2),
        y: unit_component_of(c.y, len2),
        z: unit_component_of(c.z, len2),
    }
}

proof fn lemma_component(n: int, c: int, len2: int)
    requires
        len2 > 0,
        0 <= c * c <= len2,
        unit_component(n, c, len2),
    ensures
        0 <= n * n <= NORMAL_SCALE * NORMAL_SCALE,
        abs(n) <= NORMAL_SCALE,
        n * c >= 0,
        n != 0 ==> n * c > 0,
        (abs(n) + 1) * (abs(n) + 1) == n * n + 2 * abs(n) + 1,
{
    let s2: int = 0x100_0000_0000;
    let nn = n * n;
    let cc = c * c;
    assert(nn >= 0) by (nonlinear_arith)
        requires
            nn == n * n,
    ;
    assert(s2 * cc <= s2 * len2) by (nonlinear_arith)
        requires
            0 <= cc <= len2,
            s2 > 0,
    ;
    assert(nn * len2 <= s2 * len2);
    assert(nn <= s2) by (nonlinear_arith)
        requires
            len2 > 0,
            nn * len2 <= s2 * len2,
    ;
    assert(abs(n) <= 0x10_0000) by (nonlinear_arith)
        requires
            n * n <= 0x100_0000_0000,
            abs(n) == if n < 0 { -n } else { n },
    ;
    assert(n * c >= 0 && (n != 0 ==> n * c > 0)) by (nonlinear_arith)
        requires
            len2 > 0,
            c >= 0 ==> n >= 0,
            c < 0 ==> n <= 0,
            n * n * len2 <= s2 * (c * c),
    ;
    assert((abs(n) + 1) * (abs(n) + 1) == n * n + 2 * abs(n) + 1) by (nonlinear_arith)
        requires
            abs(n) == if n < 0 { -n } else { n },
    ;
}

proof fn lemma_sum_bounds(ax: int, ay: int, az: int, cx: int, cy: int, cz: int, bx: int, by: int, bz: int, len2: int)
    requires
        len2 > 0,
        cx + cy + cz == len2,
        ax * len2 <= 0x100_0000_0000 * cx,
        ay * len2 <= 0x100_0000_0000 * cy,
        az * len2 <= 0x100_0000_0000 * cz,
        0x100_0000_0000 * cx < bx * len2,
        0x100_0000_0000 * cy < by * len2,
        0x100_0000_0000 * cz < bz * len2,
    ensures
        ax + ay + az <= 0x100_0000_0000,
        0x100_0000_0000 < bx + by + bz,
{
    assert((ax + ay + az) * len2 <= 0x100_0000_0000 * len2) by (nonlinear_arith)
        requires
            cx + cy + cz == len2,
            ax * len2 <= 0x100_0000_0000 * cx,
            ay * len2 <= 0x100_0000_0000 * cy,
            az * len2 <= 0x100_0000_0000 * cz,
    ;
    assert(0x100_0000_0000 * len2 < (bx + by + bz) * len2) by (nonlinear_arith)
        requires
            cx + cy + cz == len2,
            0x100_0000_0000 * cx < bx * len2,
            0x100_0000_0000 * cy < by * len2,
            0x100_0000_0000 * cz < bz * len2,
    ;
    assert(ax + ay + az <= 0x100_0000_0000) by (nonlinear_arith)
        requires
            len2 > 0,
            (ax + ay + az) * len2 <= 0x100_0000_0000 * len2,
    ;
    assert(0x100_0000_0000 < bx + by + bz) by (nonlinear_arith)
        requires
            len2 > 0,
            0x100_0000_0000 * len2 < (bx + by + bz) * len2,
    ;
}

/// The unit normal of a nonzero vector has length `NORMAL_SCALE` within a
/// relative `10⁻⁵`, and points the same way as the vector.
pub proof fn lemma_unit_normal_length(n: V3, c: V3)
    requires
        is_unit_normal(n, c),
        norm2(c) > 0,
    ensures
        norm2(n) <= NORMAL_SCALE * NORMAL_SCALE,
        10_000_000_000 * norm2(n) >= (NORMAL_SCALE * NORMAL_SCALE) * (99_999 * 99_999),
        dot(n, c) > 0,
{
    let len2 = norm2(c);
    assert(c.x * c.x >= 0 && c.y * c.y >= 0 && c.z * c.z >= 0) by (nonlinear_arith);
    lemma_component(n.x, c.x, len2);
    lemma_component(n.y, c.y, len2);
    lemma_component(n.z, c.z, len2);
    let (bx, by, bz) = (
        (abs(n.x) + 1) * (abs(n.x) + 1),
        (abs(n.y) + 1) * (abs(n.y) + 1),
        (abs(n.z) + 1) * (abs(n.z) + 1),
    );
    lemma_sum_bounds(n.x * n.x, n.y * n.y, n.z * n.z, c.x * c.x, c.y * c.y, c.z * c.z, bx, by, bz, len2);
}

} // verus!
