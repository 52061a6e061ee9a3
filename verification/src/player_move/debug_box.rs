//! The outline of a box that the movement debug view draws: the box's eight
//! corners are numbered by three bits, one per axis (a set bit takes the
//! minimum on that axis, a clear bit the maximum), and each of the six faces
//! is drawn as a rectangle of four lines between its corners.

use vstd::prelude::*;

verus! {

/// The corners of face `f`, in the order the rectangle takes them: the
/// faces at the maximum of x, y and z, then at the minimum of x, y and z.
pub open spec fn spec_box_face(f: int) -> Seq<int> {
    if f == 0 {
        seq![0int, 4, 6, 2]
    } else if f == 1 {
        seq![0int, 1, 5, 4]
    } else if f == 2 {
        seq![0int, 2, 3, 1]
    } else if f == 3 {
        seq![7int, 5, 1, 3]
    } else if f == 4 {
        seq![7int, 3, 2, 6]
    } else {
        seq![7int, 6, 4, 5]
    }
}

/// Corner `i` takes the minimum on `axis` (0 for x, 1 for y, 2 for z).
pub open spec fn spec_corner_min(i: int, axis: int) -> bool {
    if axis == 0 {
        i % 2 == 1
    } else if axis == 1 {
        (i / 2) % 2 == 1
    } else {
        (i / 4) % 2 == 1
    }
}

/// Line `j` of the outline (from 0 to 23): the rectangle of face `j / 4`
/// with corners `p` is drawn as the lines `p[1]`-`p[0]`, `p[0]`-`p[3]`,
/// `p[3]`-`p[2]` and `p[2]`-`p[1]`.
pub open spec fn spec_box_line(j: int) -> (int, int) {
    let p = spec_box_face(j / 4);
    let e = j % 4;
    if e == 0 {
        (p[1], p[0])
    } else if e == 1 {
        (p[0], p[3])
    } else if e == 2 {
        (p[3], p[2])
    } else {
        (p[2], p[1])
    }
}

/// Whether corner `i` (from 0 to 7) takes the minimum on `axis`.
pub fn corner_uses_min(i: usize, axis: usize) -> (r: bool)
    requires
        i < 8,
        axis < 3,
    ensures
        r == spec_corner_min(i as int, axis as int),
{
    let bit: usize = if axis == 0 {
        1
    } else if axis == 1 {
        2
    } else {
        4
    };
    let r = i & bit != 0;
    assert(i < 8 ==> ((i & 1 != 0) == (i % 2 == 1) && (i & 2 != 0) == ((i / 2) % 2 == 1) && (i & 4
        != 0) == ((i / 4) % 2 == 1))) by (bit_vector);
    r
}

/// The corners of face `f` (from 0 to 5).
pub fn box_face(f: usize) -> (r: [usize; 4])
    requires
        f < 6,
    ensures
        r@ == spec_box_face(f as int).map_values(|c: int| c as usize),
{
    let r: [usize; 4] = if f == 0 {
        [0, 4, 6, 2]
    } else if f == 1 {
        [0, 1, 5, 4]
    } else if f == 2 {
        [0, 2, 3, 1]
    } else if f == 3 {
        [7, 5, 1, 3]
    } else if f == 4 {
        [7, 3, 2, 6]
    } else {
        [7, 6, 4, 5]
    };
    assert(r@ =~= spec_box_face(f as int).map_values(|c: int| c as usize));
    r
}

/// The 24 lines of the outline, as pairs of corners, in drawing order.
pub fn box_lines() -> (r: Vec<(usize, usize)>)
    ensures
        r@.len() == 24,
        forall|j: int|
            0 <= j < 24 ==> (#[trigger] r@[j]).0 as int == spec_box_line(j).0 && r@[j].1 as int
                == spec_box_line(j).1,
{
    let mut r: Vec<(usize, usize)> = Vec::new();
    let mut f: usize = 0;
    while f < 6
        invariant
            f <= 6,
            r@.len() == 4 * f,
            forall|j: int|
                0 <= j < 4 * f ==> (#[trigger] r@[j]).0 as int == spec_box_line(j).0 && r@[j].1 as int
                    == spec_box_line(j).1,
        decreases 6 - f,
    {
        let p = box_face(f);
        assert(p@[0] as int == spec_box_face(f as int)[0]);
        assert(p@[1] as int == spec_box_face(f as int)[1]);
        assert(p@[2] as int == spec_box_face(f as int)[2]);
        assert(p@[3] as int == spec_box_face(f as int)[3]);
        let ghost base = 4 * f as int;
        assert((base + 0) / 4 == f && (base + 0) % 4 == 0);
        assert((base + 1) / 4 == f && (base + 1) % 4 == 1);
        assert((base + 2) / 4 == f && (base + 2) % 4 == 2);
        assert((base + 3) / 4 == f && (base + 3) % 4 == 3);
        r.push((p[1], p[0]));
        r.push((p[0], p[3]));
        r.push((p[3], p[2]));
        r.push((p[2], p[1]));
        f += 1;
    }
    r
}

/// Whether the debug view outlines physics entity `num` of `numphysent`:
/// entity 0 (the world) and numbers out of range are left out.
pub fn phys_ent_drawable(num: i32, numphysent: i32) -> (r: bool)
    ensures
        r == (0 < num && num < numphysent),
{
    !(num >= numphysent || num <= 0)
}

/// The axis across face `f`: x for faces 0 and 3, y for 1 and 4, z for 2
/// and 5.
pub open spec fn face_axis(f: int) -> int {
    f % 3
}

/// Corners `a` and `b` differ on exactly one axis: they are the two ends of
/// an edge of the box.
pub open spec fn is_box_edge(a: int, b: int) -> bool {
    let dx = spec_corner_min(a, 0) != spec_corner_min(b, 0);
    let dy = spec_corner_min(a, 1) != spec_corner_min(b, 1);
    let dz = spec_corner_min(a, 2) != spec_corner_min(b, 2);
    (dx && !dy && !dz) || (!dx && dy && !dz) || (!dx && !dy && dz)
}

/// The outline draws the box's faces: each line of face `f` joins two
/// corners on the side of `f` (the maximum of its axis for faces 0 to 2,
/// the minimum for faces 3 to 5), and every line is an edge of the box.
pub proof fn lemma_box_lines_are_edges(j: int)
    requires
        0 <= j < 24,
    ensures
        is_box_edge(spec_box_line(j).0, spec_box_line(j).1),
        spec_corner_min(spec_box_line(j).0, face_axis(j / 4)) == (j / 4 >= 3),
        spec_corner_min(spec_box_line(j).1, face_axis(j / 4)) == (j / 4 >= 3),
{
}

/// Each face lists four different corners, all on the face's side (the
/// maximum of its axis for faces 0 to 2, the minimum for faces 3 to 5):
/// so it lists exactly the four corners of that side.
pub proof fn lemma_box_faces_are_sides(f: int)
    requires
        0 <= f < 6,
    ensures
        spec_box_face(f).len() == 4,
        forall|k: int| 0 <= k < 4 ==> 0 <= #[trigger] spec_box_face(f)[k] < 8,
        forall|k: int|
            0 <= k < 4 ==> spec_corner_min(#[trigger] spec_box_face(f)[k], face_axis(f)) == (f >= 3),
        forall|k: int, l: int|
            0 <= k < l < 4 ==> #[trigger] spec_box_face(f)[k] != #[trigger] spec_box_face(f)[l],
{
}

/// The outline draws every edge of the box: any two corners that differ on
/// exactly one axis are joined by one of the 24 lines.
pub proof fn lemma_box_lines_cover_edges(a: int, b: int)
    requires
        0 <= a < 8,
        0 <= b < 8,
        is_box_edge(a, b),
    ensures
        exists|j: int|
            0 <= j < 24 && ((#[trigger] spec_box_line(j)) == (a, b) || spec_box_line(j) == (b, a)),
{
    let l0 = spec_box_line(0);
    let l1 = spec_box_line(1);
    let l2 = spec_box_line(2);
    let l3 = spec_box_line(3);
    let l4 = spec_box_line(4);
    let l5 = spec_box_line(5);
    let l6 = spec_box_line(6);
    let l7 = spec_box_line(7);
    let l8 = spec_box_line(8);
    let l9 = spec_box_line(9);
    let l10 = spec_box_line(10);
    let l11 = spec_box_line(11);
    let l12 = spec_box_line(12);
    let l13 = spec_box_line(13);
    let l14 = spec_box_line(14);
    let l15 = spec_box_line(15);
    let l16 = spec_box_line(16);
    let l17 = spec_box_line(17);
    let l18 = spec_box_line(18);
    let l19 = spec_box_line(19);
    let l20 = spec_box_line(20);
    let l21 = spec_box_line(21);
    let l22 = spec_box_line(22);
    let l23 = spec_box_line(23);
}

} // verus!
