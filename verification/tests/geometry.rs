use frame_builder::geometry::{clamp, max_rect_value, Point, Rect, Size, COORD_MAX};

fn rect(x: i32, y: i32, w: i32, h: i32) -> Rect {
    Rect { origin: Point { x, y }, size: Size { width: w, height: h } }
}

#[test]
fn intersection_of_overlapping_rects() {
    let a = rect(0, 0, 100, 100);
    let b = rect(50, 60, 100, 100);
    assert_eq!(a.intersection(&b), Some(rect(50, 60, 50, 40)));
    assert_eq!(b.intersection(&a), Some(rect(50, 60, 50, 40)));
}

#[test]
fn intersection_of_rects_that_only_touch_is_nothing() {
    let a = rect(0, 0, 100, 100);
    assert_eq!(a.intersection(&rect(100, 0, 50, 50)), None);
    assert_eq!(a.intersection(&rect(0, 100, 50, 50)), None);
    assert_eq!(a.intersection(&rect(99, 99, 50, 50)), Some(rect(99, 99, 1, 1)));
}

#[test]
fn intersection_with_a_rect_of_no_extent_is_nothing() {
    let a = rect(0, 0, 100, 100);
    assert_eq!(a.intersection(&rect(10, 10, 0, 20)), None);
    assert_eq!(a.intersection(&rect(10, 10, -5, 20)), None);
}

#[test]
fn intersection_of_a_rect_within_another_is_the_inner_one() {
    let outer = rect(-1000, -1000, 10000, 10000);
    let inner = rect(0, 0, 800, 600);
    assert_eq!(outer.intersection(&inner), Some(inner));
}

#[test]
fn translate_moves_the_origin_only() {
    let r = rect(10, 20, 30, 40).translate(&Point { x: -15, y: 5 });
    assert_eq!(r, rect(-5, 25, 30, 40));
}

#[test]
fn translate_pins_to_the_coordinate_range() {
    let r = rect(COORD_MAX, -COORD_MAX, 5, 5).translate(&Point { x: 10, y: -10 });
    assert_eq!(r, rect(COORD_MAX, -COORD_MAX, 5, 5));
}

#[test]
fn inflate_grows_on_every_side() {
    assert_eq!(rect(50, 50, 200, 200).inflate(4, 0), rect(46, 50, 208, 200));
    assert_eq!(rect(50, 50, 200, 200).inflate(0, 4), rect(50, 46, 200, 208));
    assert_eq!(rect(50, 50, 200, 200).inflate(-10, -20), rect(60, 70, 180, 160));
}

#[test]
fn constructors_pin_to_the_coordinate_range() {
    assert_eq!(Point::new(i32::MAX, i32::MIN), Point { x: COORD_MAX, y: -COORD_MAX });
    assert_eq!(Size::new(7, i32::MAX), Size { width: 7, height: COORD_MAX });
    assert_eq!(clamp(-COORD_MAX - 1), -COORD_MAX);
    assert_eq!(clamp(12), 12);
}

#[test]
fn point_arithmetic() {
    let p = Point { x: 3, y: -4 };
    assert_eq!(p.add(&Point { x: 10, y: 10 }), Point { x: 13, y: 6 });
    assert_eq!(p.neg(), Point { x: -3, y: 4 });
    assert_eq!(Point { x: i32::MIN, y: 0 }.neg(), Point { x: COORD_MAX, y: 0 });
}

#[test]
fn emptiness_of_sizes_and_rects() {
    assert!(Size { width: 0, height: 5 }.is_empty());
    assert!(Size { width: 5, height: -1 }.is_empty());
    assert!(!Size { width: 1, height: 1 }.is_empty());
    assert!(rect(1, 1, 0, 0).is_empty());
    assert_eq!(Size { width: -3, height: 9 }.to_extent(), Size { width: 0, height: 9 });
}

#[test]
fn the_open_clip() {
    assert_eq!(max_rect_value(), rect(-1000, -1000, 10000, 10000));
}

#[test]
fn the_left_and_upper_edge_belong_to_a_rect() {
    let r = rect(10, 20, 30, 40);
    assert!(r.contains(&Point { x: 10, y: 20 }));
    assert!(r.contains(&Point { x: 10, y: 59 }));
    assert!(r.contains(&Point { x: 39, y: 20 }));
    assert!(r.contains(&Point { x: 39, y: 59 }));
    assert!(!r.contains(&Point { x: 40, y: 20 }));
    assert!(!r.contains(&Point { x: 10, y: 60 }));
    assert!(!r.contains(&Point { x: 9, y: 20 }));
    assert!(!r.contains(&Point { x: 10, y: 19 }));
    assert!(!rect(10, 20, 0, 40).contains(&Point { x: 10, y: 20 }));
}
