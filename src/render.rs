//! Shading, the camera and the render loop.
use vstd::prelude::*;
use vstd::arithmetic::div_mod::{lemma_mod_pos_bound, lemma_multiply_divide_lt};
use crate::light::PointLight;
use crate::normal::MAX_NORMAL;
use crate::raycast::{all_wf, is_nearest, nearest_hit, no_hit, ray_ok};
use crate::scene::Scene;
use crate::triangle::Triangle;
use crate::vec3::{
    abs, bounded, dot, lemma_mul_abs_le, neg, norm2, v3, wide_dot, V3, Vec3, Wide3, MAX_DIR, UNIT,
};

verus! {

/// Width of the rendered image, in pixels.
pub const WIDTH: u32 = 500;

/// Height of the rendered image, in pixels.
pub const HEIGHT: u32 = 500;

/// Largest image side that `camera_ray` accepts.
pub const MAX_SIDE: u32 = 512;

/// An RGBA8 pixel.
#[derive(Clone, Copy, Debug, PartialEq, Eq)]
pub struct Pixel {
    pub r: u8,
    pub g: u8,
    pub b: u8,
    pub a: u8,
}

/// The opaque gray pixel of level `k`.
pub open spec fn gray(k: int) -> Pixel {
    Pixel { r: k as u8, g: k as u8, b: k as u8, a: 255 }
}

/// The largest `k ≤ m` with `k²·x ≤ y`.
pub open spec fn floor_level(m: nat, x: int, y: int) -> nat
    decreases m,
{
    if m == 0 || m * m * x <= y {
        m
    } else {
        floor_level((m - 1) as nat, x, y)
    }
}

/// The shade of a surface with normal `n` seen along `d`, on 8 bits:
/// `⌊255 · max(0, cos θ)⌋` with `cos θ = n·(−d) / (|n|·|d|)`. It is the
/// largest `k ≤ 255` with `k·|n|·|d| ≤ 255·n·(−d)`, compared in squares.
pub open spec fn shade_level(n: V3, d: V3) -> int {
    let c = dot(n, neg(d));
    if c <= 0 {
        0
    } else {
        floor_level(255, norm2(n) * norm2(d), 255 * 255 * (c * c)) as int
    }
}

/// The index of the nearest triangle that the ray hits.
pub open spec fn nearest_index(o: V3, d: V3, tris: Seq<Triangle>) -> int {
    choose|i: int| is_nearest(o, d, tris, i)
}

/// The pixel for the ray `o + t·d`: black where it hits nothing, else the
/// gray shade of the nearest triangle.
pub open spec fn ray_color(o: V3, d: V3, tris: Seq<Triangle>) -> Pixel {
    if no_hit(o, d, tris) {
        gray(0)
    } else {
        gray(shade_level(tris[nearest_index(o, d, tris)].area_normal@, d))
    }
}

/// At most one triangle is the nearest.
pub proof fn lemma_nearest_unique(o: V3, d: V3, tris: Seq<Triangle>, i: int, j: int)
    requires
        is_nearest(o, d, tris, i),
        is_nearest(o, d, tris, j),
    ensures
        i == j,
{
    if i < j {
        assert(crate::raycast::ray_hits(o, d, tris[i]));
    } else if j < i {
        assert(crate::raycast::ray_hits(o, d, tris[j]));
    }
}

proof fn lemma_level_step(k: nat, x: int, y: int)
    requires
        k > 0,
        k * k * x > y,
    ensures
        floor_level(k, x, y) == floor_level((k - 1) as nat, x, y),
{
}

/// The shade level of normal `normal` seen along `ray_dir`.
pub fn shade(normal: &Vec3, ray_dir: &Vec3) -> (r: u8)
    requires
        bounded(normal@, MAX_NORMAL as int),
        bounded(ray_dir@, MAX_DIR as int),
    ensures
        r == shade_level(normal@, ray_dir@),
{
    let n: Wide3 = normal.to_wide();
    let d: Wide3 = ray_dir.to_wide();
    let back = Wide3 { x: -d.x, y: -d.y, z: -d.z };
    let ghost nm: int = 0x8_0000_0000;
    let ghost dm: int = 0x4_0000;
    let c = wide_dot(&n, &back, Ghost(nm), Ghost(dm));
    if c <= 0 {
        return 0;
    }
    let n2 = wide_dot(&n, &n, Ghost(nm), Ghost(nm));
    let d2 = wide_dot(&d, &d, Ghost(dm), Ghost(dm));
    // 3·2^70, 3·2^36 and 3·2^53.
    let ghost n2m: int = 0xC0_0000_0000_0000_0000;
    let ghost d2m: int = 0x30_0000_0000;
    let ghost cm: int = 0x60_0000_0000_0000;
    proof {
        assert(n2 >= 0 && d2 >= 0) by (nonlinear_arith)
            requires
                n2 == n.x * n.x + n.y * n.y + n.z * n.z,
                d2 == d.x * d.x + d.y * d.y + d.z * d.z,
        ;
        lemma_mul_abs_le(n2 as int, d2 as int, n2m, d2m);
        lemma_mul_abs_le(c as int, c as int, cm, cm);
    }
    let x: i128 = n2 * d2;
    let y: i128 = 65025 * (c * c);
    proof {
        assert(x >= 0) by (nonlinear_arith)
            requires
                n2 >= 0,
                d2 >= 0,
                x == n2 * d2,
        ;
    }
    proof {
        assert(n2m * d2m <= 0x4000_0000_0000_0000_0000_0000_0000) by (nonlinear_arith)
            requires
                n2m == 0xC0_0000_0000_0000_0000int,
                d2m == 0x30_0000_0000int,
        ;
    }
    let mut k: i128 = 255;
    while k > 0 && k * k * x > y
        invariant
            0 <= k <= 255,
            0 <= x <= 0x4000_0000_0000_0000_0000_0000_0000,
            k * k <= 65025,
            k * k * x <= 65025 * x,
            floor_level(k as nat, x as int, y as int) == floor_level(
                255,
                norm2(normal@) * norm2(ray_dir@),
                255 * 255 * (dot(normal@, neg(ray_dir@)) * dot(normal@, neg(ray_dir@))),
            ),
        decreases k,
    {
        proof {
            assert((k - 1) * (k - 1) <= 65025 && (k - 1) * (k - 1) * x <= 65025 * x)
                by (nonlinear_arith)
                requires
                    0 < k <= 255,
                    0 <= x,
            ;
            lemma_level_step(k as nat, x as int, y as int);
        }
        k = k - 1;
    }
    k as u8
}

/// The normal of a well-formed triangle is within `MAX_NORMAL`.
proof fn lemma_normal_bounded(t: Triangle)
    requires
        t.wf(),
    ensures
        bounded(t.area_normal@, MAX_NORMAL as int),
{
    let p: int = 0x2_0000;
    crate::vec3::lemma_cross_dot_bounds(
        crate::vec3::vsub(t.v2@, t.v0@),
        crate::vec3::vsub(t.v1@, t.v0@),
        p,
        p,
    );
}

/// The color of the ray `ray_origin + t·ray_dir` in a scene of `triangles`:
/// the shade of the nearest triangle hit, or black. The lights are not
/// consulted by this shading rule.
pub fn get_pixel_color(
    ray_origin: &Vec3,
    ray_dir: &Vec3,
    triangles: &Vec<Triangle>,
    lights: &Vec<PointLight>,
) -> (r: Pixel)
    requires
        ray_ok(ray_origin@, ray_dir@),
        all_wf(triangles@),
    ensures
        r == ray_color(ray_origin@, ray_dir@, triangles@),
{
    match nearest_hit(ray_origin, ray_dir, triangles) {
        Some((index, _hit)) => {
            let tri = &triangles[index];
            proof {
                lemma_normal_bounded(*tri);
                let ghost c = nearest_index(ray_origin@, ray_dir@, triangles@);
                lemma_nearest_unique(ray_origin@, ray_dir@, triangles@, c, index as int);
            }
            let k = shade(&tri.area_normal, ray_dir);
            Pixel { r: k, g: k, b: k, a: 255 }
        },
        None => Pixel { r: 0, g: 0, b: 0, a: 255 },
    }
}

/// The fixed camera position: `(0, 0, −2)` in scene units.
pub open spec fn camera_origin_spec() -> V3 {
    v3(0, 0, -2 * UNIT)
}

/// The direction through the center of pixel `(x, y)` of a `w × h` image:
/// `(u, v, 1)` with `u = (2x + 1 − w) / w` and `v = (h − 2y − 1) / h`,
/// scaled by `w·h` to stay on the grid.
pub open spec fn camera_dir(x: int, y: int, w: int, h: int) -> V3 {
    v3(h * (2 * x + 1 - w), w * (h - 2 * y - 1), w * h)
}

/// The fixed camera position.
pub fn camera_origin() -> (r: Vec3)
    ensures
        r@ == camera_origin_spec(),
{
    Vec3 { x: 0, y: 0, z: -2 * UNIT }
}

/// The camera ray direction through pixel `(x, y)`; row 0 is the top. It is
/// `(u, v, 1)` scaled by `w·h > 0`, so it has the normalized direction of
/// `(u, v, 1)`; a ray parameter along it is a distance divided by its length.
pub fn camera_ray(x: u32, y: u32, width: u32, height: u32) -> (r: Vec3)
    requires
        0 < width <= MAX_SIDE,
        0 < height <= MAX_SIDE,
        x < width,
        y < height,
    ensures
        r@ == camera_dir(x as int, y as int, width as int, height as int),
        r@.z == width * height,
        r@.x * width == (2 * x + 1 - width) * r@.z,
        r@.y * height == (height - 2 * y - 1) * r@.z,
        bounded(r@, MAX_DIR as int),
{
    let w = width as i64;
    let h = height as i64;
    let cx: i64 = 2 * (x as i64) + 1 - w;
    let cy: i64 = h - 2 * (y as i64) - 1;
    proof {
        assert(abs(h * cx) <= 0x4_0000 && abs(w * cy) <= 0x4_0000 && 0 < w * h <= 0x4_0000)
            by (nonlinear_arith)
            requires
                0 < w <= 512,
                0 < h <= 512,
                -w < cx < w,
                -h < cy < h,
        {
            lemma_mul_abs_le(h as int, cx as int, 512, 512);
            lemma_mul_abs_le(w as int, cy as int, 512, 512);
        }
    }
    proof {
        assert((h * cx) * w == cx * (w * h) && (w * cy) * h == cy * (w * h)) by (nonlinear_arith);
    }
    Vec3 { x: h * cx, y: w * cy, z: w * h }
}

/// Renders `width × height` pixels in row-major order from the top-left:
/// pixel `i` is column `i % width` of row `i / width`, colored by the camera
/// ray through its center.
pub fn render(scene: &Scene, width: u32, height: u32) -> (pixels: Vec<Pixel>)
    requires
        scene.wf(),
        0 < width <= MAX_SIDE,
        0 < height <= MAX_SIDE,
    ensures
        pixels.len() == width * height,
        forall|i: int|
            0 <= i < pixels.len() ==> #[trigger] pixels[i] == ray_color(
                camera_origin_spec(),
                camera_dir(i % width as int, i / width as int, width as int, height as int),
                scene.triangles@,
            ),
{
    let origin = camera_origin();
    proof {
        assert(width * height <= 0x4_0000) by (nonlinear_arith)
            requires
                0 < width <= 512,
                0 < height <= 512,
        ;
    }
    let n: usize = width as usize * height as usize;
    let mut pixels: Vec<Pixel> = Vec::with_capacity(n);
    let mut i: usize = 0;
    while i < n
        invariant
            n == width * height,
            0 < width <= MAX_SIDE,
            0 < height <= MAX_SIDE,
            scene.wf(),
            origin@ == camera_origin_spec(),
            i <= n,
            pixels.len() == i,
            forall|j: int|
                0 <= j < i ==> #[trigger] pixels[j] == ray_color(
                    camera_origin_spec(),
                    camera_dir(j % width as int, j / width as int, width as int, height as int),
                    scene.triangles@,
                ),
        decreases n - i,
    {
        let x: u32 = (i % width as usize) as u32;
        let y: u32 = (i / width as usize) as u32;
        proof {
            lemma_mod_pos_bound(i as int, width as int);
            lemma_multiply_divide_lt(i as int, width as int, height as int);
        }
        let dir = camera_ray(x, y, width, height);
        let p = get_pixel_color(&origin, &dir, &scene.triangles, &scene.lights);
        pixels.push(p);
        i = i + 1;
    }
    pixels
}

/// A ray that misses every triangle gives an opaque black pixel.
pub proof fn lemma_miss_is_black(o: V3, d: V3, tris: Seq<Triangle>)
    requires
        no_hit(o, d, tris),
    ensures
        ray_color(o, d, tris) == (Pixel { r: 0, g: 0, b: 0, a: 255 }),
{
}

/// In a scene without triangles every ray gives an opaque black pixel.
pub proof fn lemma_empty_scene_black(o: V3, d: V3)
    ensures
        ray_color(o, d, Seq::<Triangle>::empty()) == (Pixel { r: 0, g: 0, b: 0, a: 255 }),
{
    assert(no_hit(o, d, Seq::<Triangle>::empty()));
}

} // verus!
