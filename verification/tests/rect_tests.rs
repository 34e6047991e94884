use rroguelike::Rect;

#[test]
fn new_sets_corners() {
    let r = Rect::new(3, 4, 5, 6);
    assert_eq!(r.x1, 3);
    assert_eq!(r.y1, 4);
    assert_eq!(r.x2, 8);
    assert_eq!(r.y2, 10);
}

#[test]
fn intersect_overlapping() {
    let a = Rect::new(0, 0, 10, 10);
    let b = Rect::new(5, 5, 10, 10);
    assert!(a.intersect(&b));
    assert!(b.intersect(&a));
}

#[test]
fn intersect_disjoint() {
    let a = Rect::new(0, 0, 4, 4);
    let b = Rect::new(20, 20, 4, 4);
    assert!(!a.intersect(&b));
    assert!(!b.intersect(&a));
}

#[test]
fn intersect_touching_edges() {
    let a = Rect::new(0, 0, 4, 4);
    let b = Rect::new(4, 0, 4, 4);
    assert!(a.intersect(&b));
}

#[test]
fn center_exact() {
    let r = Rect::new(2, 2, 4, 6);
    assert_eq!(r.center(), (4, 5));
}

#[test]
fn center_rounds_toward_lower_right() {
    let r = Rect::new(0, 0, 5, 5);
    // (0 + 5) / 2 == 2 on both axes
    assert_eq!(r.center(), (2, 2));
}
