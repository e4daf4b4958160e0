use maunakea::geometry::{Axes, Circle, Collider, Direction, Point, Rect};

#[test]
fn rect_corners_are_derived() {
    let r = Rect::new_xywh(2, 3, 8, 11);
    assert_eq!(r.ul, Point::new(2, 3));
    assert_eq!(r.ur, Point::new(9, 3));
    assert_eq!(r.dl, Point::new(2, 13));
    assert_eq!(r.dr, Point::new(9, 13));
    assert_eq!(Rect::new(Point::new(2, 3), Point::new(9, 13)), r);
}

#[test]
fn rectangles_overlap_strictly() {
    let a = Collider::Rectangular(Rect::new(Point::new(0, 0), Point::new(10, 10)));
    let b = Collider::Rectangular(Rect::new(Point::new(5, 5), Point::new(15, 15)));
    let touching = Collider::Rectangular(Rect::new(Point::new(10, 0), Point::new(20, 10)));
    assert!(a.collide_check(&b));
    assert!(b.collide_check(&a));
    assert!(!a.collide_check(&touching));
}

#[test]
fn rectangle_and_circle() {
    let r = Collider::Rectangular(Rect::new(Point::new(0, 0), Point::new(10, 10)));
    let near = Collider::Circular(Circle::new(3, Point::new(12, 5)));
    let far = Collider::Circular(Circle::new(3, Point::new(13, 5)));
    let inside = Collider::Circular(Circle::new(1, Point::new(5, 5)));
    assert!(r.collide_check(&near));
    assert!(near.collide_check(&r));
    assert!(!r.collide_check(&far));
    assert!(r.collide_check(&inside));
}

#[test]
fn circles_overlap() {
    let a = Collider::Circular(Circle::new(3, Point::new(0, 0)));
    let b = Collider::Circular(Circle::new(3, Point::new(5, 0)));
    let c = Collider::Circular(Circle::new(3, Point::new(6, 0)));
    assert!(a.collide_check(&b));
    assert!(!a.collide_check(&c));
    assert!(!c.collide_check(&a));
}

#[test]
fn bounding_boxes() {
    let r = Collider::Rectangular(Rect::new(Point::new(9, 13), Point::new(2, 3)));
    assert_eq!(r.to_aabb(), (2, 3, 9, 13));
    let c = Collider::Circular(Circle::new(6, Point::new(1, -2)));
    assert_eq!(c.to_aabb(), (-5, -8, 7, 4));
    assert!(c.rect().is_none());
    assert_eq!(c.circle(), Some(&Circle::new(6, Point::new(1, -2))));
    assert_eq!(r.rect().map(|x| x.ul), Some(Point::new(9, 13)));
}

#[test]
fn defaults() {
    assert_eq!(Direction::default(), Direction::Left);
    assert_eq!(Collider::default().to_aabb(), (0, 0, 0, 0));
    assert_ne!(Axes::Horizontal, Axes::Vertical);
}

#[test]
fn console_mode_enables_escape_sequences() {
    let m = maunakea::console::fix_conhost();
    assert_eq!(m, 0x5);
    let o = maunakea::options::Options { decimals: 3, info_path: String::new(), checkpoints: String::new() };
    assert_eq!(o.decimals, 3);
}

#[test]
fn retained_speed_lives_three_more_frames() {
    let r = maunakea::retained::Retained::arm(42i32);
    assert_eq!(r, maunakea::retained::Retained::Armed(42, 4));
    let r1 = r.tick();
    assert_eq!(r1.value(), Some(42));
    let r3 = r1.tick().tick();
    assert_eq!(r3, maunakea::retained::Retained::Armed(42, 1));
    assert_eq!(r3.tick(), maunakea::retained::Retained::Idle);
    assert_eq!(r3.tick().value(), None);
}

#[test]
fn retained_speed_comes_back_only_against_the_same_wall() {
    let r = maunakea::retained::Retained::arm(-7i32).tick();
    assert_eq!(r.restore(true, true), (maunakea::retained::Retained::Idle, Some(-7)));
    assert_eq!(r.restore(false, true), (r, None));
    assert_eq!(r.restore(true, false), (r, None));
    let idle: maunakea::retained::Retained<i32> = maunakea::retained::Retained::Idle;
    assert_eq!(idle.restore(true, true), (idle, None));
}

#[test]
fn negative_radius_circle_collides_with_nothing() {
    let r = Collider::Rectangular(Rect::new(Point::new(0, 0), Point::new(10, 10)));
    let neg = Collider::Circular(Circle::new(-5, Point::new(5, 5)));
    let pos = Collider::Circular(Circle::new(5, Point::new(5, 5)));
    assert!(!r.collide_check(&neg));
    assert!(!neg.collide_check(&r));
    assert!(!neg.collide_check(&pos));
    assert!(pos.collide_check(&r));
    assert_eq!(neg.to_aabb(), (0, 0, 10, 10));
}
