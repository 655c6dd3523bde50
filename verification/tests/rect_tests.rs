use porthole::rect::Rect;

#[test]
fn collision_is_symmetric_on_overlap() {
    let a = Rect::new(100, 100, 0, 0);
    let b = Rect::new(100, 100, 50, 50);
    assert!(a.detect_collision(&b));
    assert!(b.detect_collision(&a));
}

#[test]
fn edge_touching_rects_do_not_collide() {
    let a = Rect::new(100, 80, 10, 20);
    let right = Rect::new(100, 80, 110, 20);
    let below = Rect::new(100, 80, 10, 100);
    assert!(!a.detect_collision(&right));
    assert!(!right.detect_collision(&a));
    assert!(!a.detect_collision(&below));
    assert!(!below.detect_collision(&a));
}

#[test]
fn disjoint_rects_do_not_collide() {
    let a = Rect::new(10, 10, 0, 0);
    let b = Rect::new(10, 10, 100, 100);
    assert!(!a.detect_collision(&b));
    assert!(!b.detect_collision(&a));
}

#[test]
fn rect_edges() {
    let r = Rect::new(30, 40, -5, 7);
    assert_eq!(r.start_x(), -5);
    assert_eq!(r.end_x(), 25);
    assert_eq!(r.start_y(), 7);
    assert_eq!(r.end_y(), 47);
}
