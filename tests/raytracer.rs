use raytracer::{
    camera_origin, camera_ray, get_pixel_color, load_cornell_box_scene, nearest_hit,
    ray_intersects_triangle, render, shade, Color, Pixel, PointLight, Scene, Triangle, Vec3,
    HEIGHT, NORMAL_SCALE, UNIT, WIDTH,
};

const BLACK: Pixel = Pixel { r: 0, g: 0, b: 0, a: 255 };

fn v(x: i64, y: i64, z: i64) -> Vec3 {
    Vec3::new(x, y, z)
}

fn white() -> Color {
    Color::new(100, 100, 100)
}

fn no_lights() -> Vec<PointLight> {
    Vec::new()
}

/// The triangle of the upward-facing square at z = 5 with x, y in [−1, 1].
fn square_half_at_z5() -> Triangle {
    Triangle::new(v(-UNIT, -UNIT, 5 * UNIT), v(UNIT, -UNIT, 5 * UNIT), v(-UNIT, UNIT, 5 * UNIT), white())
}

#[test]
fn ray_at_centroid_hits_centroid() {
    let tri = Triangle::new(v(0, 0, 5550), v(3330, 0, 5550), v(0, 3330, 5550), white());
    let origin = v(0, 0, -2220);
    // Aimed so that origin + 1·dir is the centroid (1110, 1110, 5550).
    let dir = v(1110, 1110, 7770);
    let hit = ray_intersects_triangle(&origin, &dir, &tri).expect("hit");
    assert!(hit.det > 0);
    assert_eq!(hit.t, hit.det);
    assert_eq!(3 * hit.u, hit.det);
    assert_eq!(3 * hit.v, hit.det);
    assert_eq!(hit.position.x, 1110 * hit.det);
    assert_eq!(hit.position.y, 1110 * hit.det);
    assert_eq!(hit.position.z, 5550 * hit.det);
}

#[test]
fn parallel_ray_misses() {
    let tri = square_half_at_z5();
    // The normal is along z; a direction in the xy plane is parallel.
    assert_eq!(tri.normal.x * 1 + tri.normal.y * 1, 0);
    assert!(ray_intersects_triangle(&v(0, 0, 5 * UNIT), &v(1, 1, 0), &tri).is_none());
    assert!(ray_intersects_triangle(&v(-500, -500, 0), &v(1, 0, 0), &tri).is_none());
}

#[test]
fn nearest_of_two_triangles_is_selected() {
    let near = Triangle::new(v(-UNIT, -UNIT, UNIT), v(UNIT, -UNIT, UNIT), v(-UNIT, UNIT, UNIT), white());
    let far = square_half_at_z5();
    let origin = v(-100, -100, -2 * UNIT);
    let dir = v(0, 0, 1);
    let (i, hit) = nearest_hit(&origin, &dir, &vec![near, far]).expect("hit");
    assert_eq!(i, 0);
    assert_eq!(hit.t, 3 * (UNIT as i128) * hit.det);
    let (j, hit2) = nearest_hit(&origin, &dir, &vec![far, near]).expect("hit");
    assert_eq!(j, 1);
    assert_eq!(hit2.t, 3 * (UNIT as i128) * hit2.det);
}

#[test]
fn equal_distances_keep_the_first() {
    let a = square_half_at_z5();
    let b = Triangle::new(v(-UNIT, -UNIT, 5 * UNIT), v(UNIT, -UNIT, 5 * UNIT), v(-UNIT, UNIT, 5 * UNIT), Color::new(10, 20, 30));
    let (i, _) = nearest_hit(&v(0, 0, 0), &v(0, 0, 1), &vec![a, b]).expect("hit");
    assert_eq!(i, 0);
}

#[test]
fn missed_ray_gives_black_pixel() {
    let tris = vec![square_half_at_z5()];
    // Passes beside the triangle.
    let p = get_pixel_color(&v(0, 0, -2 * UNIT), &v(3, 0, 1), &tris, &no_lights());
    assert_eq!(p, BLACK);
    // Points away from it.
    let q = get_pixel_color(&v(0, 0, -2 * UNIT), &v(0, 0, -1), &tris, &no_lights());
    assert_eq!(q, BLACK);
}

#[test]
fn normal_is_oriented_and_perpendicular() {
    let t = Triangle::new(v(1, 2, 3), v(7, -1, 4), v(2, 5, -6), white());
    let e1 = (6i64, -3i64, 1i64);
    let e2 = (1i64, 3i64, -9i64);
    // (v2 − v0) × (v1 − v0)
    let n = (e2.1 * e1.2 - e2.2 * e1.1, e2.2 * e1.0 - e2.0 * e1.2, e2.0 * e1.1 - e2.1 * e1.0);
    assert_eq!((t.area_normal.x, t.area_normal.y, t.area_normal.z), n);
    // The unit normal points the same way, with length NORMAL_SCALE.
    let len2 = t.normal.x * t.normal.x + t.normal.y * t.normal.y + t.normal.z * t.normal.z;
    assert!(len2 <= NORMAL_SCALE * NORMAL_SCALE);
    assert!((len2 as f64).sqrt() >= NORMAL_SCALE as f64 * (1.0 - 1e-5));
    assert!(t.normal.x * n.0 + t.normal.y * n.1 + t.normal.z * n.2 > 0);
    assert_eq!(n.0 * e1.0 + n.1 * e1.1 + n.2 * e1.2, 0);
    assert_eq!(n.0 * e2.0 + n.1 * e2.1 + n.2 * e2.2, 0);
    let up = square_half_at_z5();
    assert_eq!((up.normal.x, up.normal.y), (0, 0));
    assert!(up.normal.z < 0);
}

#[test]
fn recompute_normal_follows_vertices() {
    let mut t = square_half_at_z5();
    t.v1 = v(-UNIT, UNIT, 5 * UNIT);
    t.v2 = v(UNIT, -UNIT, 5 * UNIT);
    t.recompute_normal();
    assert!(t.normal.z > 0);
}

#[test]
fn cornell_box_fits_unit_cube() {
    let scene = load_cornell_box_scene();
    assert_eq!(scene.triangles.len(), 30);
    for t in &scene.triangles {
        for p in [t.v0, t.v1, t.v2] {
            for c in [p.x, p.y, p.z] {
                assert!(-UNIT <= c && c <= UNIT);
            }
        }
        assert!(t.normal != v(0, 0, 0));
    }
    assert_eq!(scene.lights.len(), 1);
    let l = scene.lights[0];
    assert_eq!(l.position, v(-333, 555, -777));
    assert_eq!(l.color, white());
    assert_eq!(l.intensity, 200);
    // The floor's first corner (L, 0, L) becomes (1, −1, 1).
    assert_eq!(scene.triangles[0].v0, v(UNIT, -UNIT, UNIT));
}

#[test]
fn scenario_single_triangle_head_on() {
    let tris = vec![square_half_at_z5()];
    let origin = camera_origin();
    assert_eq!(origin, v(0, 0, -2 * UNIT));
    let dir = v(0, 0, 1);
    let (i, hit) = nearest_hit(&origin, &dir, &tris).expect("hit");
    assert_eq!(i, 0);
    // t = 7 scene units along a unit direction.
    assert_eq!(hit.t, 7 * (UNIT as i128) * hit.det);
    assert_eq!(get_pixel_color(&origin, &dir, &tris, &no_lights()), Pixel { r: 255, g: 255, b: 255, a: 255 });
}

#[test]
fn scenario_empty_scene_is_black() {
    let scene = Scene { lights: no_lights(), triangles: Vec::new() };
    let pixels = render(&scene, WIDTH, HEIGHT);
    assert_eq!(pixels.len(), 250_000);
    assert!(pixels.iter().all(|p| *p == BLACK));
}

#[test]
fn scenario_cornell_center_pixel_hits() {
    let scene = load_cornell_box_scene();
    let dir = camera_ray(WIDTH / 2, HEIGHT / 2, WIDTH, HEIGHT);
    let (i, _) = nearest_hit(&camera_origin(), &dir, &scene.triangles).expect("hit");
    // The back wall (8, 9) or one of the blocks (10..30).
    assert!(i >= 8);
    let p = get_pixel_color(&camera_origin(), &dir, &scene.triangles, &scene.lights);
    assert_ne!(p, BLACK);
}

#[test]
fn camera_ray_directions() {
    assert_eq!(camera_ray(0, 0, 500, 500), v(500 * -499, 500 * 499, 250_000));
    assert_eq!(camera_ray(499, 499, 500, 500), v(500 * 499, 500 * -499, 250_000));
    assert_eq!(camera_ray(1, 0, 4, 2), v(2 * -1, 4 * 1, 8));
}

#[test]
fn shade_levels() {
    let n = v(0, 0, -1);
    assert_eq!(shade(&n, &v(0, 0, 1)), 255);
    // cos = 4/5
    assert_eq!(shade(&n, &v(3, 0, 4)), 204);
    // cos = 1/√2 → 180.3
    assert_eq!(shade(&n, &v(1, 0, 1)), 180);
    // facing away
    assert_eq!(shade(&n, &v(0, 0, -1)), 0);
    assert_eq!(shade(&n, &v(1, 0, 0)), 0);
}

#[test]
fn degenerate_triangle_is_never_hit() {
    let flat = Triangle::new(v(0, 0, 5), v(10, 0, 5), v(20, 0, 5), white());
    assert_eq!(flat.normal, v(0, 0, 0));
    assert!(ray_intersects_triangle(&v(5, 0, 0), &v(0, 0, 1), &flat).is_none());
}

#[test]
fn hit_behind_origin_is_rejected() {
    let tri = square_half_at_z5();
    assert!(ray_intersects_triangle(&v(0, 0, 6 * UNIT), &v(0, 0, 1), &tri).is_none());
    // Starting exactly on the surface is not a hit either.
    assert!(ray_intersects_triangle(&v(-100, -100, 5 * UNIT), &v(0, 0, 1), &tri).is_none());
}

#[test]
fn edges_and_vertices_count_as_hits() {
    let tri = square_half_at_z5();
    assert!(ray_intersects_triangle(&v(-UNIT, -UNIT, 0), &v(0, 0, 1), &tri).is_some());
    assert!(ray_intersects_triangle(&v(0, -UNIT, 0), &v(0, 0, 1), &tri).is_some());
    assert!(ray_intersects_triangle(&v(UNIT + 1, -UNIT, 0), &v(0, 0, 1), &tri).is_none());
}

#[test]
fn render_is_row_major() {
    let tris = vec![square_half_at_z5()];
    let scene = Scene { lights: no_lights(), triangles: tris };
    let pixels = render(&scene, 4, 2);
    assert_eq!(pixels.len(), 8);
    for i in 0..8u32 {
        let d = camera_ray(i % 4, i / 4, 4, 2);
        assert_eq!(pixels[i as usize], get_pixel_color(&camera_origin(), &d, &scene.triangles, &scene.lights));
    }
}

#[test]
fn cornell_box_colors_by_index() {
    let scene = load_cornell_box_scene();
    let expected = [
        (0..2, Color::new(15, 75, 15)),
        (2..4, Color::new(75, 15, 75)),
        (4..6, Color::new(75, 75, 15)),
        (6..8, Color::new(15, 75, 75)),
        (8..10, Color::new(75, 75, 75)),
        (10..20, Color::new(75, 15, 15)),
        (20..30, Color::new(15, 15, 75)),
    ];
    for (range, color) in expected {
        for i in range {
            assert_eq!(scene.triangles[i].color, color);
        }
    }
}

#[test]
fn cornell_box_known_triangles() {
    let scene = load_cornell_box_scene();
    let floor = scene.triangles[0];
    assert_eq!((floor.v0, floor.v1, floor.v2), (v(UNIT, -UNIT, UNIT), v(-UNIT, -UNIT, -UNIT), v(UNIT, -UNIT, -UNIT)));
    assert_eq!(floor.normal, v(0, NORMAL_SCALE, 0));
    assert_eq!(floor.area_normal, v(0, 4 * UNIT * UNIT, 0));
    let back = scene.triangles[8];
    assert_eq!((back.v0, back.v1, back.v2), (v(UNIT, UNIT, UNIT), v(-UNIT, -UNIT, UNIT), v(UNIT, -UNIT, UNIT)));
    assert_eq!(back.normal, v(0, 0, -NORMAL_SCALE));
    assert_eq!(back.area_normal, v(0, 0, -4 * UNIT * UNIT));
}

#[test]
fn cornell_box_reaches_cube_faces_and_room_faces_inward() {
    let scene = load_cornell_box_scene();
    let mut lo = [i64::MAX; 3];
    let mut hi = [i64::MIN; 3];
    for t in &scene.triangles {
        for p in [t.v0, t.v1, t.v2] {
            for (k, c) in [p.x, p.y, p.z].into_iter().enumerate() {
                lo[k] = lo[k].min(c);
                hi[k] = hi[k].max(c);
            }
        }
    }
    assert_eq!(lo, [-UNIT; 3]);
    assert_eq!(hi, [UNIT; 3]);
    for (i, t) in scene.triangles.iter().enumerate() {
        assert!(t.normal != v(0, 0, 0), "triangle {} has zero area", i);
        if i < 10 {
            let inward = -(t.normal.x * t.v0.x + t.normal.y * t.v0.y + t.normal.z * t.v0.z);
            assert!(inward > 0, "room triangle {} faces outward", i);
        }
    }
}

#[test]
fn cornell_box_is_the_same_every_time() {
    let a = load_cornell_box_scene();
    let b = load_cornell_box_scene();
    assert_eq!(a.triangles, b.triangles);
    assert_eq!(a.lights, b.lights);
}

#[test]
fn far_hits_stay_within_bound() {
    let tri = Triangle::new(v(-65536, -65536, 65536), v(65536, -65536, 65536), v(-65536, 65536, 65536), white());
    let hit = ray_intersects_triangle(&v(0, 0, -65536), &v(0, 0, 1), &tri).expect("hit");
    assert_eq!(hit.t, 131072 * hit.det);
    assert!(hit.t < 10_000_000 * hit.det);
}

#[test]
fn unit_right_triangle_has_unit_normal() {
    let t = Triangle::new(v(0, 0, 0), v(UNIT, 0, 0), v(0, UNIT, 0), white());
    assert_eq!(t.normal, v(0, 0, -NORMAL_SCALE));
    assert_eq!(t.area_normal, v(0, 0, -UNIT * UNIT));
}

#[test]
fn normal_unchanged_by_scaling_and_translation() {
    let a = Triangle::new(v(10, 20, 30), v(70, -10, 40), v(20, 50, -60), white());
    let f = |p: Vec3| v(3 * p.x - 100, 3 * p.y + 7, 3 * p.z - 1);
    let mut b = a;
    b.v0 = f(a.v0);
    b.v1 = f(a.v1);
    b.v2 = f(a.v2);
    b.recompute_normal();
    assert_eq!(b.normal, a.normal);
    assert_eq!(b.area_normal, v(9 * a.area_normal.x, 9 * a.area_normal.y, 9 * a.area_normal.z));
}

#[test]
fn near_parallel_ray_is_rejected() {
    // A sliver one grid step tall: its determinant along x is far below
    // 10^-7 cubic scene units.
    let sliver = Triangle::new(v(0, 0, 0), v(0, 1, 0), v(0, 0, 1), white());
    assert!(ray_intersects_triangle(&v(-5, 0, 0), &v(1, 0, 0), &sliver).is_none());
}
