use dungeon_generator::math::{
    align_even_down, align_even_up, align_odd_up, intersects, Rectangle, Rot, Vector,
};

#[test]
fn overlap_strict_interior() {
    let a = Rectangle { p1: Vector { x: 0, y: 0 }, p2: Vector { x: 4, y: 4 } };
    let b = Rectangle { p1: Vector { x: 3, y: 3 }, p2: Vector { x: 6, y: 6 } };
    assert!(a.overlap(&b));
    assert!(b.overlap(&a));
}

#[test]
fn overlap_touching_edges_do_not_count() {
    let a = Rectangle { p1: Vector { x: 0, y: 0 }, p2: Vector { x: 4, y: 4 } };
    let right = Rectangle { p1: Vector { x: 4, y: 0 }, p2: Vector { x: 8, y: 4 } };
    let above = Rectangle { p1: Vector { x: 0, y: 4 }, p2: Vector { x: 4, y: 8 } };
    assert!(!a.overlap(&right));
    assert!(!right.overlap(&a));
    assert!(!a.overlap(&above));
    let apart = Rectangle { p1: Vector { x: 10, y: 10 }, p2: Vector { x: 12, y: 12 } };
    assert!(!a.overlap(&apart));
}

#[test]
fn is_inside_half_open() {
    let a = Rectangle { p1: Vector { x: -2, y: -2 }, p2: Vector { x: 2, y: 2 } };
    assert!(a.is_inside(Vector { x: -2, y: -2 }));
    assert!(a.is_inside(Vector { x: 1, y: 1 }));
    assert!(!a.is_inside(Vector { x: 2, y: 0 }));
    assert!(!a.is_inside(Vector { x: 0, y: 2 }));
    assert!(!a.is_inside(Vector { x: -3, y: 0 }));
}

#[test]
fn size_of_rectangle() {
    let a = Rectangle { p1: Vector { x: -2, y: 1 }, p2: Vector { x: 3, y: 4 } };
    let s = a.size();
    assert_eq!(s.x, 5);
    assert_eq!(s.y, 3);
}

#[test]
fn segment_crosses_rectangle() {
    let a = Rectangle { p1: Vector { x: 0, y: 0 }, p2: Vector { x: 4, y: 4 } };
    // a horizontal segment through the middle
    assert!(a.intersects(Vector { x: -3, y: 2 }, Vector { x: 8, y: 2 }));
    // a horizontal segment far above
    assert!(!a.intersects(Vector { x: -3, y: 9 }, Vector { x: 8, y: 9 }));
    // a segment entirely to the left: shadow test rejects it
    assert!(!a.intersects(Vector { x: -9, y: -9 }, Vector { x: -5, y: 9 }));
}

#[test]
fn segment_touching_wall_counts() {
    let a = Rectangle { p1: Vector { x: 0, y: 0 }, p2: Vector { x: 4, y: 4 } };
    // a vertical run along the wall column itself intersects
    assert!(a.intersects(Vector { x: 0, y: -5 }, Vector { x: 0, y: 8 }));
    // one cell further left it runs along the widened corners: collinear
    // with them, so all corners sit on one side and it does not count
    assert!(!a.intersects(Vector { x: -1, y: -5 }, Vector { x: -1, y: 8 }));
    assert!(!a.intersects(Vector { x: -2, y: -5 }, Vector { x: -2, y: 8 }));
}

#[test]
fn segment_against_either_rectangle() {
    let a = Rectangle { p1: Vector { x: 0, y: 0 }, p2: Vector { x: 4, y: 4 } };
    let b = Rectangle { p1: Vector { x: 10, y: 0 }, p2: Vector { x: 14, y: 4 } };
    assert!(intersects(Vector { x: 11, y: -5 }, Vector { x: 11, y: 8 }, &a, &b));
    assert!(!intersects(Vector { x: 6, y: -5 }, Vector { x: 6, y: 8 }, &a, &b));
}

#[test]
fn rotations_act_as_quarter_turns() {
    let p = Vector { x: 3, y: 1 };
    let r90 = Rot::R90.apply(p);
    assert_eq!((r90.x, r90.y), (-1, 3));
    let r180 = Rot::R180.apply(p);
    assert_eq!((r180.x, r180.y), (-3, -1));
    let r270 = Rot::R270.apply(p);
    assert_eq!((r270.x, r270.y), (1, -3));
    let r0 = Rot::R0.apply(p);
    assert_eq!((r0.x, r0.y), (3, 1));
}

#[test]
fn rotation_inverse_and_compose() {
    let p = Vector { x: -7, y: 2 };
    for r in [Rot::R0, Rot::R90, Rot::R180, Rot::R270] {
        let back = r.inverse().apply(r.apply(p));
        assert_eq!((back.x, back.y), (p.x, p.y));
        for s in [Rot::R0, Rot::R90, Rot::R180, Rot::R270] {
            let both = r.compose(s).apply(p);
            let seq = r.apply(s.apply(p));
            assert_eq!((both.x, both.y), (seq.x, seq.y));
        }
    }
}

#[test]
fn alignment_helpers() {
    assert_eq!(align_even_down(5), 4);
    assert_eq!(align_even_down(4), 4);
    assert_eq!(align_even_down(-5), -6);
    assert_eq!(align_even_up(5), 6);
    assert_eq!(align_even_up(-5), -4);
    assert_eq!(align_even_up(0), 0);
    assert_eq!(align_odd_up(4), 5);
    assert_eq!(align_odd_up(5), 5);
    assert_eq!(align_odd_up(-4), -3);
    assert_eq!(align_odd_up(-5), -5);
}
