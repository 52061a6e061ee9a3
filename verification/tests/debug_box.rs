use xash3d::player_move::debug_box::{box_face, box_lines, corner_uses_min, phys_ent_drawable};

#[test]
fn box_corners_by_bits() {
    // corner 0 is the maximum on every axis, corner 7 the minimum
    assert!((0..3).all(|a| !corner_uses_min(0, a)));
    assert!((0..3).all(|a| corner_uses_min(7, a)));
    assert!(corner_uses_min(1, 0) && !corner_uses_min(1, 1) && !corner_uses_min(1, 2));
    assert!(!corner_uses_min(6, 0) && corner_uses_min(6, 1) && corner_uses_min(6, 2));
}

#[test]
fn box_faces_table() {
    assert_eq!(box_face(0), [0, 4, 6, 2]);
    assert_eq!(box_face(3), [7, 5, 1, 3]);
    assert_eq!(box_face(5), [7, 6, 4, 5]);
}

#[test]
fn box_lines_are_edges() {
    let lines = box_lines();
    assert_eq!(lines.len(), 24);
    assert_eq!(lines[0], (4, 0));
    assert_eq!(lines[1], (0, 2));
    assert_eq!(lines[2], (2, 6));
    assert_eq!(lines[3], (6, 4));
    for (a, b) in lines {
        // the two corners differ in exactly one bit
        assert_eq!((a ^ b).count_ones(), 1);
    }
}

#[test]
fn drawable_entities() {
    assert!(!phys_ent_drawable(0, 5));
    assert!(phys_ent_drawable(1, 5));
    assert!(phys_ent_drawable(4, 5));
    assert!(!phys_ent_drawable(5, 5));
    assert!(!phys_ent_drawable(-1, 5));
}
