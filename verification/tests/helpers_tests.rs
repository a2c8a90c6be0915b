use sofia::helpers::{box1_offset, fit_box1, wrap_floor, Box1, Box2, SubtractResult};

#[test]
fn box1_size_and_contains() {
    let b = Box1::new(2, 7);
    assert_eq!(b.size(), 5);
    assert!(b.contains(2));
    assert!(b.contains(6));
    assert!(!b.contains(7));
    assert!(!b.contains(1));
    assert!(!b.is_empty());
    assert!(Box1::new(3, 3).is_empty());
}

#[test]
fn box1_from_point_holds_one() {
    let b = Box1::from_point(-4);
    assert_eq!(b, Box1::new(-4, -3));
    assert_eq!(b.size(), 1);
}

#[test]
fn box1_union_and_intersect() {
    let a = Box1::new(0, 5);
    let b = Box1::new(3, 9);
    assert_eq!(a.union_cover(b), Box1::new(0, 9));
    assert_eq!(a.intersect(b), Box1::new(3, 5));
    assert!(a.intersects(b));
    assert!(!a.intersects(Box1::new(5, 8)));
    assert!(Box1::new(0, 10).contains_box(Box1::new(2, 4)));
    assert!(!Box1::new(0, 10).contains_box(Box1::new(8, 11)));
}

#[test]
fn box1_intersect_holds_common_points() {
    // Two boxes that meet: their intersection holds their common points.
    let a = Box1::new(-3, 2);
    let b = Box1::new(1, 4);
    let c = a.intersect(b);
    assert_eq!(c, Box1::new(1, 2));
    for p in -5..6 {
        assert_eq!(c.contains(p), a.contains(p) && b.contains(p));
    }
}

#[test]
fn box1_subtract_cases() {
    let a = Box1::new(0, 10);
    assert_eq!(a.subtract(Box1::new(-1, 11)), SubtractResult::Empty);
    assert_eq!(a.subtract(Box1::new(0, 4)), SubtractResult::One(Box1::new(4, 10)));
    assert_eq!(a.subtract(Box1::new(6, 12)), SubtractResult::One(Box1::new(0, 6)));
    assert_eq!(
        a.subtract(Box1::new(3, 5)),
        SubtractResult::Two(Box1::new(0, 3), Box1::new(5, 10))
    );
}

#[test]
fn box1_subtract_leaves_the_points_outside() {
    let a = Box1::new(0, 10);
    let b = Box1::new(3, 5);
    let r = a.subtract(b);
    for p in -2..12 {
        let inside = match r {
            SubtractResult::Empty => false,
            SubtractResult::One(x) => x.contains(p),
            SubtractResult::Two(x, y) => x.contains(p) || y.contains(p),
        };
        assert_eq!(inside, a.contains(p) && !b.contains(p));
    }
}

#[test]
fn box1_from_iter_spans_zero_and_items() {
    assert_eq!(Box1::from_iter(&[3, 5, 4]), Box1::new(0, 6));
    assert_eq!(Box1::from_iter(&[-2, -7]), Box1::new(-7, 1));
    assert_eq!(Box1::from_iter(&[]), Box1::new(0, 1));
}

#[test]
fn box1_iter_walks_the_interval() {
    let mut it = Box1::new(2, 5).iter();
    assert_eq!(it.size_hint(), (3, Some(3)));
    assert_eq!(it.next(), Some(2));
    assert_eq!(it.next(), Some(3));
    assert_eq!(it.next(), Some(4));
    assert_eq!(it.next(), None);
    assert_eq!(Box1::new(2, 5).iter().count(), 3);
    let mut it2 = Box1::new(10, 20).iter();
    assert_eq!(it2.nth(3), Some(13));
    assert_eq!(it2.next(), Some(14));
    assert_eq!(it2.nth(100), None);
}

#[test]
fn box1_iter_next_back_stops_before_the_last_one() {
    let mut it = Box1::new(0, 3).iter();
    assert_eq!(it.next_back(), Some(2));
    assert_eq!(it.next_back(), Some(1));
    // The lowest value is never handed out from the back.
    assert_eq!(it.next_back(), None);
}

#[test]
fn box2_basics() {
    let b = Box2::new((0, 0), (3, 2));
    assert_eq!(b.size(), 6);
    assert!(b.contains((2, 1)));
    assert!(!b.contains((3, 1)));
    assert!(!b.is_empty());
    assert!(Box2::new((0, 0), (0, 5)).is_empty());
    assert_eq!(Box2::from_point((4, -1)), Box2::new((4, -1), (5, 0)));
    assert_eq!(
        Box2::from_box1s(Box1::new(1, 2), Box1::new(3, 4)),
        Box2::new((1, 3), (2, 4))
    );
}

#[test]
fn box2_union_cover_spans_both() {
    let a = Box2::new((0, 0), (2, 2));
    let b = Box2::new((5, -1), (6, 1));
    let u = a.union_cover(b);
    assert_eq!(u, Box2::new((0, -1), (6, 2)));
    assert!(u.contains_box(a));
    assert!(u.contains_box(b));
}

#[test]
fn box2_intersect_and_intersects() {
    let a = Box2::new((0, 0), (4, 4));
    let b = Box2::new((2, 3), (6, 8));
    assert!(a.intersects(b));
    assert_eq!(a.intersect(b), Box2::new((2, 3), (4, 4)));
    assert!(!a.intersects(Box2::new((4, 0), (5, 1))));
}

#[test]
fn box2_from_iter_has_no_extra_column() {
    // Unlike `Box1::from_iter`, the upper corner is the largest item itself.
    assert_eq!(Box2::from_iter(&[(3, 1), (-2, 4)]), Box2::new((-2, 0), (3, 4)));
    assert_eq!(Box2::from_iter(&[]), Box2::new((0, 0), (0, 0)));
}

#[test]
fn noise_picks() {
    assert_eq!(wrap_floor(7, 3), 1);
    assert_eq!(wrap_floor(-7, 3), -1);
    assert_eq!(box1_offset(2, Box1::new(10, 20)), 12);
    assert_eq!(fit_box1(5, 3, Box1::new(0, 10)), Some(Box1::new(5, 8)));
    assert_eq!(fit_box1(9, 3, Box1::new(0, 10)), Some(Box1::new(1, 4)));
    assert_eq!(fit_box1(0, 11, Box1::new(0, 10)), None);
}
