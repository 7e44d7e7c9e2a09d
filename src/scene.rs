//! The scene: triangles and lights, and the Cornell box.
use vstd::prelude::*;
use crate::light::PointLight;
use crate::raycast::all_wf;
use crate::triangle::{Color, Triangle};
use crate::vec3::{bounded, v3, V3, Vec3, UNIT};

verus! {

/// Side of the Cornell box in its own units.
pub const BOX_SIDE: i64 = 555;

/// Triangles and point lights, read-only while rendering.
pub struct Scene {
    pub lights: Vec<PointLight>,
    pub triangles: Vec<Triangle>,
}

impl Scene {
    pub open spec fn wf(&self) -> bool {
        all_wf(self.triangles@)
    }
}

/// A point of the box frame: every coordinate in `[0, BOX_SIDE]`.
pub open spec fn in_box(v: V3) -> bool {
    0 <= v.x <= BOX_SIDE && 0 <= v.y <= BOX_SIDE && 0 <= v.z <= BOX_SIDE
}

/// A triangle of the box frame with a valid color.
pub open spec fn box_triangle(t: Triangle) -> bool {
    in_box(t.v0@) && in_box(t.v1@) && in_box(t.v2@) && t.color.wf()
}

/// The rescaling from the box frame to the scene: `c ↦ 2c / BOX_SIDE − 1`
/// scene units, which is `4c − UNIT` grid steps.
pub open spec fn to_unit_cube_spec(v: V3) -> V3 {
    v3(4 * v.x - UNIT, 4 * v.y - UNIT, 4 * v.z - UNIT)
}

/// Every coordinate lies in `[−1, 1]` scene units.
pub open spec fn in_unit_cube(t: Triangle) -> bool {
    &&& bounded(t.v0@, UNIT as int)
    &&& bounded(t.v1@, UNIT as int)
    &&& bounded(t.v2@, UNIT as int)
}

fn to_unit_cube(v: &Vec3) -> (r: Vec3)
    requires
        in_box(v@),
    ensures
        r@ == to_unit_cube_spec(v@),
{
    let k: i64 = 2 * UNIT / BOX_SIDE;
    assert(k == 4);
    Vec3 { x: v.x * k - UNIT, y: v.y * k - UNIT, z: v.z * k - UNIT }
}

/// A face of the box frame: three corners and a color.
pub type Face = (V3, V3, V3, Color);

/// `t` is the well-formed triangle of face `f`.
pub open spec fn is_face(t: Triangle, f: Face) -> bool {
    &&& t.v0@ == f.0
    &&& t.v1@ == f.1
    &&& t.v2@ == f.2
    &&& t.color == f.3
    &&& t.wf()
}

/// The ten faces of a block standing on the floor: `a b c d` are its
/// corners on the floor, `top` the height of its top face.
pub open spec fn block_faces(a: V3, b: V3, c: V3, d: V3, top: int, color: Color) -> Seq<Face> {
    let e = v3(a.x, top, a.z);
    let f = v3(b.x, top, b.z);
    let g = v3(c.x, top, c.z);
    let h = v3(d.x, top, d.z);
    seq![
        (e, b, a, color),
        (e, f, b, color),
        (f, d, b, color),
        (f, h, d, color),
        (h, c, d, color),
        (h, g, c, color),
        (g, e, c, color),
        (e, a, c, color),
        (g, f, e, color),
        (g, h, f, color),
    ]
}

pub open spec fn red() -> Color {
    Color { r: 75, g: 15, b: 15 }
}

pub open spec fn yellow() -> Color {
    Color { r: 75, g: 75, b: 15 }
}

pub open spec fn green() -> Color {
    Color { r: 15, g: 75, b: 15 }
}

pub open spec fn cyan() -> Color {
    Color { r: 15, g: 75, b: 75 }
}

pub open spec fn blue() -> Color {
    Color { r: 15, g: 15, b: 75 }
}

pub open spec fn purple() -> Color {
    Color { r: 75, g: 15, b: 75 }
}

pub open spec fn white() -> Color {
    Color { r: 75, g: 75, b: 75 }
}

/// The ten faces of the room: floor, left wall, right wall, ceiling and
/// back wall, two each.
pub open spec fn room_faces() -> Seq<Face> {
    let l = BOX_SIDE as int;
    let a = v3(l, 0, 0);
    let b = v3(0, 0, 0);
    let c = v3(l, 0, l);
    let d = v3(0, 0, l);
    let e = v3(l, l, 0);
    let f = v3(0, l, 0);
    let g = v3(l, l, l);
    let h = v3(0, l, l);
    seq![
        (c, b, a, green()),
        (c, d, b, green()),
        (a, e, c, purple()),
        (c, e, g, purple()),
        (f, b, d, yellow()),
        (h, f, d, yellow()),
        (e, f, g, cyan()),
        (f, h, g, cyan()),
        (g, d, c, white()),
        (g, h, d, white()),
    ]
}

/// The thirty faces of the Cornell box in its own frame: the room, the
/// short block (red) and the tall block (blue).
pub open spec fn cornell_box_spec() -> Seq<Face> {
    room_faces() + block_faces(
        v3(290, 0, 114),
        v3(130, 0, 65),
        v3(240, 0, 272),
        v3(82, 0, 225),
        165,
        red(),
    ) + block_faces(v3(423, 0, 247), v3(265, 0, 296), v3(472, 0, 406), v3(314, 0, 456), 330, blue())
}

/// `tris` is the Cornell box rescaled into `[−1, 1]³`: triangle `j` has the
/// rescaled corners and the color of face `j`, and its normal derived
/// from them.
pub open spec fn is_cornell_box(tris: Seq<Triangle>) -> bool {
    &&& tris.len() == cornell_box_spec().len()
    &&& forall|j: int|
        0 <= j < tris.len() ==> {
            let f = #[trigger] cornell_box_spec()[j];
            &&& tris[j].v0@ == to_unit_cube_spec(f.0)
            &&& tris[j].v1@ == to_unit_cube_spec(f.1)
            &&& tris[j].v2@ == to_unit_cube_spec(f.2)
            &&& tris[j].color == f.3
            &&& tris[j].wf()
        }
}

/// Appends the triangle `a b c` of the box frame.
fn push_face(tris: &mut Vec<Triangle>, a: Vec3, b: Vec3, c: Vec3, color: Color)
    requires
        in_box(a@),
        in_box(b@),
        in_box(c@),
    ensures
        final(tris)@.len() == old(tris)@.len() + 1,
        forall|j: int| 0 <= j < old(tris)@.len() ==> final(tris)@[j] == old(tris)@[j],
        is_face(final(tris)@[old(tris)@.len() as int], (a@, b@, c@, color)),
{
    tris.push(Triangle::new(a, b, c, color));
}

/// Appends the ten triangles of `block_faces`.
fn push_block(tris: &mut Vec<Triangle>, a: Vec3, b: Vec3, c: Vec3, d: Vec3, top: i64, color: Color)
    requires
        in_box(a@),
        in_box(b@),
        in_box(c@),
        in_box(d@),
        0 <= top <= BOX_SIDE,
    ensures
        final(tris)@.len() == old(tris)@.len() + 10,
        forall|j: int| 0 <= j < old(tris)@.len() ==> final(tris)@[j] == old(tris)@[j],
        forall|k: int|
            0 <= k < 10 ==> is_face(
                #[trigger] final(tris)@[old(tris)@.len() + k],
                block_faces(a@, b@, c@, d@, top as int, color)[k],
            ),
{
    let ghost n = tris@.len() as int;
    let e = Vec3::new(a.x, top, a.z);
    let f = Vec3::new(b.x, top, b.z);
    let g = Vec3::new(c.x, top, c.z);
    let h = Vec3::new(d.x, top, d.z);
    // Front
    push_face(tris, e, b, a, color);
    push_face(tris, e, f, b, color);
    // Front
    push_face(tris, f, d, b, color);
    push_face(tris, f, h, d, color);
    // Back
    push_face(tris, h, c, d, color);
    push_face(tris, h, g, c, color);
    // Left
    push_face(tris, g, e, c, color);
    push_face(tris, e, a, c, color);
    // Top
    push_face(tris, g, f, e, color);
    push_face(tris, g, h, f, color);
    assert(forall|k: int|
        0 <= k < 10 ==> is_face(
            #[trigger] tris@[n + k],
            block_faces(a@, b@, c@, d@, top as int, color)[k],
        )) by {
        let bf = block_faces(a@, b@, c@, d@, top as int, color);
        assert(is_face(tris@[n + 0], bf[0]));
        assert(is_face(tris@[n + 1], bf[1]));
        assert(is_face(tris@[n + 2], bf[2]));
        assert(is_face(tris@[n + 3], bf[3]));
        assert(is_face(tris@[n + 4], bf[4]));
        assert(is_face(tris@[n + 5], bf[5]));
        assert(is_face(tris@[n + 6], bf[6]));
        assert(is_face(tris@[n + 7], bf[7]));
        assert(is_face(tris@[n + 8], bf[8]));
        assert(is_face(tris@[n + 9], bf[9]));
    }
}

/// Rescales every triangle from the box frame into the scene's cube
/// `[−1, 1]³` and derives its normal again.
fn rescale_to_unit_cube(tris: &mut Vec<Triangle>)
    requires
        forall|j: int| 0 <= j < old(tris)@.len() ==> box_triangle(#[trigger] old(tris)@[j]),
    ensures
        final(tris)@.len() == old(tris)@.len(),
        forall|j: int|
            0 <= j < final(tris)@.len() ==> {
                &&& (#[trigger] final(tris)@[j]).wf()
                &&& final(tris)@[j].v0@ == to_unit_cube_spec(old(tris)@[j].v0@)
                &&& final(tris)@[j].v1@ == to_unit_cube_spec(old(tris)@[j].v1@)
                &&& final(tris)@[j].v2@ == to_unit_cube_spec(old(tris)@[j].v2@)
                &&& final(tris)@[j].color == old(tris)@[j].color
                &&& in_unit_cube(final(tris)@[j])
            },
{
    let ghost before = tris@;
    let mut i: usize = 0;
    while i < tris.len()
        invariant
            tris@.len() == before.len(),
            i <= tris@.len(),
            forall|j: int| i <= j < tris@.len() ==> #[trigger] tris@[j] == before[j],
            forall|j: int| 0 <= j < before.len() ==> box_triangle(#[trigger] before[j]),
            forall|j: int|
                0 <= j < i ==> {
                    &&& (#[trigger] tris@[j]).wf()
                    &&& tris@[j].v0@ == to_unit_cube_spec(before[j].v0@)
                    &&& tris@[j].v1@ == to_unit_cube_spec(before[j].v1@)
                    &&& tris@[j].v2@ == to_unit_cube_spec(before[j].v2@)
                    &&& tris@[j].color == before[j].color
                    &&& in_unit_cube(tris@[j])
                },
        decreases tris@.len() - i,
    {
        let mut t = tris[i];
        assert(box_triangle(before[i as int]));
        t.v0 = to_unit_cube(&t.v0);
        t.v1 = to_unit_cube(&t.v1);
        t.v2 = to_unit_cube(&t.v2);
        t.recompute_normal();
        tris[i] = t;
        i = i + 1;
    }
}

/// The triangles of the Cornell box: a room with two blocks, rescaled to the
/// cube `[−1, 1]³`.
fn load_cornell_box() -> (tris: Vec<Triangle>)
    ensures
        tris@.len() == 30,
        is_cornell_box(tris@),
        all_wf(tris@),
        forall|j: int| 0 <= j < tris@.len() ==> in_unit_cube(#[trigger] tris@[j]),
{
    let red = Color::new(75, 15, 15);
    let yellow = Color::new(75, 75, 15);
    let green = Color::new(15, 75, 15);
    let cyan = Color::new(15, 75, 75);
    let blue = Color::new(15, 15, 75);
    let purple = Color::new(75, 15, 75);
    let white = Color::new(75, 75, 75);

    let mut tris: Vec<Triangle> = Vec::with_capacity(30);

    // Room
    let l = BOX_SIDE;
    let a = Vec3::new(l, 0, 0);
    let b = Vec3::new(0, 0, 0);
    let c = Vec3::new(l, 0, l);
    let d = Vec3::new(0, 0, l);
    let e = Vec3::new(l, l, 0);
    let f = Vec3::new(0, l, 0);
    let g = Vec3::new(l, l, l);
    let h = Vec3::new(0, l, l);
    // Floor
    push_face(&mut tris, c, b, a, green);
    push_face(&mut tris, c, d, b, green);
    // Left wall
    push_face(&mut tris, a, e, c, purple);
    push_face(&mut tris, c, e, g, purple);
    // Right wall
    push_face(&mut tris, f, b, d, yellow);
    push_face(&mut tris, h, f, d, yellow);
    // Ceiling
    push_face(&mut tris, e, f, g, cyan);
    push_face(&mut tris, f, h, g, cyan);
    // Back wall
    push_face(&mut tris, g, d, c, white);
    push_face(&mut tris, g, h, d, white);

    let ghost room = tris@;
    // Short block
    push_block(
        &mut tris,
        Vec3::new(290, 0, 114),
        Vec3::new(130, 0, 65),
        Vec3::new(240, 0, 272),
        Vec3::new(82, 0, 225),
        165,
        red,
    );
    // Tall block
    push_block(
        &mut tris,
        Vec3::new(423, 0, 247),
        Vec3::new(265, 0, 296),
        Vec3::new(472, 0, 406),
        Vec3::new(314, 0, 456),
        330,
        blue,
    );

    let ghost boxed = tris@;
    assert forall|j: int| 0 <= j < 30 implies is_face(#[trigger] boxed[j], cornell_box_spec()[j])
        by {
        let rf = room_faces();
        if j < 10 {
            assert(boxed[j] == room[j]);
            assert(is_face(room[0], rf[0]));
            assert(is_face(room[1], rf[1]));
            assert(is_face(room[2], rf[2]));
            assert(is_face(room[3], rf[3]));
            assert(is_face(room[4], rf[4]));
            assert(is_face(room[5], rf[5]));
            assert(is_face(room[6], rf[6]));
            assert(is_face(room[7], rf[7]));
            assert(is_face(room[8], rf[8]));
            assert(is_face(room[9], rf[9]));
        } else if j < 20 {
            assert(boxed[10 + (j - 10)] == boxed[j]);
        } else {
            assert(boxed[20 + (j - 20)] == boxed[j]);
        }
    }
    assert forall|j: int| 0 <= j < 30 implies box_triangle(#[trigger] boxed[j]) by {
        assert(is_face(boxed[j], cornell_box_spec()[j]));
        if j < 10 {
        } else if j < 20 {
            assert(is_face(boxed[10 + (j - 10)], cornell_box_spec()[j]));
        } else {
            assert(is_face(boxed[20 + (j - 20)], cornell_box_spec()[j]));
        }
    }
    rescale_to_unit_cube(&mut tris);
    assert forall|j: int| 0 <= j < tris@.len() implies (#[trigger] tris@[j]).wf() by {}
    tris
}

/// The Cornell box with one white light of intensity 2 at
/// `(−0.3, 0.5, −0.7)`.
pub fn load_cornell_box_scene() -> (s: Scene)
    ensures
        s.wf(),
        s.triangles@.len() == 30,
        is_cornell_box(s.triangles@),
        forall|j: int| 0 <= j < s.triangles@.len() ==> in_unit_cube(#[trigger] s.triangles@[j]),
        s.lights@ == seq![
            PointLight {
                position: Vec3 { x: -333i64, y: 555i64, z: -777i64 },
                color: Color { r: 100, g: 100, b: 100 },
                intensity: 200,
            },
        ],
{
    let triangles = load_cornell_box();
    let light = PointLight {
        position: Vec3::new(-3 * UNIT / 10, UNIT / 2, -7 * UNIT / 10),
        color: Color::new(100, 100, 100),
        intensity: 200,
    };
    let lights = vec![light];
    assert(lights@ =~= seq![light]);
    Scene { triangles, lights }
}

/// Every vertex of the Cornell box lies in `[−1, 1]` on each axis.
pub proof fn lemma_cornell_box_in_unit_cube(tris: Seq<Triangle>)
    requires
        is_cornell_box(tris),
    ensures
        forall|j: int| 0 <= j < tris.len() ==> in_unit_cube(#[trigger] tris[j]),
{
    let faces = cornell_box_spec();
    assert forall|j: int| 0 <= j < faces.len() implies {
        &&& in_box((#[trigger] faces[j]).0)
        &&& in_box(faces[j].1)
        &&& in_box(faces[j].2)
    } by {
        let rf = room_faces();
        let sb = block_faces(v3(290, 0, 114), v3(130, 0, 65), v3(240, 0, 272), v3(82, 0, 225), 165, red());
        let tb = block_faces(v3(423, 0, 247), v3(265, 0, 296), v3(472, 0, 406), v3(314, 0, 456), 330, blue());
        if j < 10 {
            assert(faces[j] == rf[j]);
        } else if j < 20 {
            assert(faces[j] == sb[j - 10]);
        } else {
            assert(faces[j] == tb[j - 20]);
        }
    }
    assert forall|j: int| 0 <= j < tris.len() implies in_unit_cube(#[trigger] tris[j]) by {
        assert(in_box(faces[j].0));
    }
}

} // verus!
