use glorious::Rect;

#[test]
fn new_keeps_the_fields() {
    let r = Rect::new(3, -4, 10, 20);
    assert_eq!(r.x, 3);
    assert_eq!(r.y, -4);
    assert_eq!(r.width, 10);
    assert_eq!(r.height, 20);
}

#[test]
fn edges_of_a_rectangle() {
    let r = Rect::new(3, -4, 10, 20);
    assert_eq!(r.left(), 3);
    assert_eq!(r.top(), -4);
    assert_eq!(r.right(), 13);
    assert_eq!(r.bottom(), 16);
    assert_eq!(r.center(), (8, 6));
    assert_eq!(r.size(), (10, 20));
    assert_eq!(r.pos(), (3, -4));
}

#[test]
fn corners_of_a_rectangle() {
    let r = Rect::new(3, -4, 10, 20);
    assert_eq!(r.top_left(), (3, -4));
    assert_eq!(r.top_right(), (13, -4));
    assert_eq!(r.bottom_right(), (13, 16));
    assert_eq!(r.bottom_left(), (3, 13));
}

#[test]
fn center_rounds_half_sizes_down() {
    let r = Rect::new(0, 0, 5, 7);
    assert_eq!(r.center(), (2, 3));
    assert_eq!(Rect::from_center((2, 3), 5, 7), Rect::new(0, 0, 5, 7));
}

#[test]
fn from_center_places_the_corner() {
    assert_eq!(Rect::from_center((50, 40), 20, 10), Rect::new(40, 35, 20, 10));
    assert_eq!(Rect::from_center((0, 0), 4, 4), Rect::new(-2, -2, 4, 4));
}

#[test]
fn edges_reach_the_largest_coordinate() {
    let r = Rect::new(i32::MAX - 10, i32::MAX - 20, 10, 20);
    assert_eq!(r.right(), i32::MAX);
    assert_eq!(r.bottom(), i32::MAX);
    let wide = Rect::new(i32::MIN, i32::MIN, u32::MAX, u32::MAX);
    assert_eq!(wide.right(), i32::MAX);
    assert_eq!(wide.bottom(), i32::MAX);
}

#[test]
fn moving_keeps_the_size() {
    let mut r = Rect::new(1, 2, 3, 4);
    r.move_to(10, 20);
    assert_eq!(r, Rect::new(10, 20, 3, 4));
    r.move_by(-15, 5);
    assert_eq!(r, Rect::new(-5, 25, 3, 4));
    assert_eq!(r.moved_to(7, 8), Rect::new(7, 8, 3, 4));
    assert_eq!(r.moved_by(5, -25), Rect::new(0, 0, 3, 4));
    assert_eq!(r, Rect::new(-5, 25, 3, 4));
}

#[test]
fn centering_keeps_the_size() {
    let mut r = Rect::new(0, 0, 10, 6);
    r.center_on((100, 50));
    assert_eq!(r, Rect::new(95, 47, 10, 6));
    assert_eq!(r.center(), (100, 50));
    assert_eq!(r.centered_on((0, 0)), Rect::new(-5, -3, 10, 6));
}

#[test]
fn resizing_keeps_the_corner() {
    let mut r = Rect::new(1, 2, 3, 4);
    r.resize(30, 40);
    assert_eq!(r, Rect::new(1, 2, 30, 40));
    assert_eq!(r.resized(5, 6), Rect::new(1, 2, 5, 6));
}

#[test]
fn setting_edges_moves_the_rectangle() {
    let mut r = Rect::new(0, 0, 10, 20);
    r.set_left(5);
    assert_eq!(r, Rect::new(5, 0, 10, 20));
    r.set_top(7);
    assert_eq!(r, Rect::new(5, 7, 10, 20));
    r.set_right(100);
    assert_eq!(r, Rect::new(90, 7, 10, 20));
    assert_eq!(r.right(), 100);
    r.set_bottom(50);
    assert_eq!(r, Rect::new(90, 30, 10, 20));
    assert_eq!(r.bottom(), 50);
}

#[test]
fn rectangles_that_touch_do_not_intersect() {
    let a = Rect::new(0, 0, 10, 10);
    assert!(a.intersects(Rect::new(5, 5, 10, 10)));
    assert!(a.intersects(Rect::new(9, 9, 1, 1)));
    assert!(!a.intersects(Rect::new(10, 0, 10, 10)));
    assert!(!a.intersects(Rect::new(0, 10, 10, 10)));
    assert!(!a.intersects(Rect::new(-10, 0, 10, 10)));
    assert!(!a.intersects(Rect::new(20, 20, 5, 5)));
    assert!(a.intersects(a));
}

#[test]
fn an_empty_rectangle_inside_another_intersects_it() {
    let a = Rect::new(0, 0, 10, 10);
    assert!(a.intersects(Rect::new(5, 5, 0, 0)));
    assert!(!a.intersects(Rect::new(0, 0, 0, 0)));
}

#[test]
fn distance_between_rectangles_apart_in_both_directions() {
    let a = Rect::new(0, 0, 10, 10);
    let b = Rect::new(25, 40, 10, 10);
    assert_eq!(a.distance_to_rect(b), Some((15, 30)));
    assert_eq!(b.distance_to_rect(a), Some((15, 30)));
}

#[test]
fn distance_between_rectangles_that_intersect_is_none() {
    let a = Rect::new(0, 0, 10, 10);
    assert_eq!(a.distance_to_rect(Rect::new(5, 5, 10, 10)), None);
}

#[test]
fn distance_between_rectangles_that_touch_is_zero() {
    let a = Rect::new(0, 0, 10, 10);
    assert_eq!(a.distance_to_rect(Rect::new(10, 10, 5, 5)), Some((0, 0)));
}

#[test]
fn distance_wraps_where_the_rectangles_overlap_in_one_direction() {
    let a = Rect::new(0, 0, 10, 10);
    let b = Rect::new(5, 20, 10, 10);
    assert_eq!(a.distance_to_rect(b), Some((4294967291, 10)));
}

#[test]
fn distance_to_a_coordinate() {
    let r = Rect::new(10, 20, 30, 40);
    assert_eq!(r.distance_to_x(50), Some(10));
    assert_eq!(r.distance_to_x(40), Some(0));
    assert_eq!(r.distance_to_x(10), Some(0));
    assert_eq!(r.distance_to_x(4), Some(6));
    assert_eq!(r.distance_to_x(11), None);
    assert_eq!(r.distance_to_x(39), None);
    assert_eq!(r.distance_to_y(0), Some(20));
    assert_eq!(r.distance_to_y(20), Some(0));
    assert_eq!(r.distance_to_y(60), Some(0));
    assert_eq!(r.distance_to_y(75), Some(15));
    assert_eq!(r.distance_to_y(21), None);
}

#[test]
fn distance_to_a_coordinate_over_the_whole_range() {
    let r = Rect::new(i32::MIN, i32::MIN, 0, 0);
    assert_eq!(r.distance_to_x(i32::MAX), Some(u32::MAX));
    assert_eq!(r.distance_to_y(i32::MAX), Some(u32::MAX));
    let far = Rect::new(i32::MAX, i32::MAX, 0, 0);
    assert_eq!(far.distance_to_x(i32::MIN), Some(u32::MAX));
    assert_eq!(far.distance_to_y(i32::MIN), Some(u32::MAX));
}

#[test]
fn overlap_of_rectangles_that_intersect() {
    let a = Rect::new(0, 0, 10, 10);
    let b = Rect::new(6, 8, 10, 10);
    assert_eq!(a.overlap_with(b), Some((4, 2)));
    assert_eq!(b.overlap_with(a), Some((4, 2)));
    assert_eq!(a.x_overlap_with(b), Some(4));
    assert_eq!(a.y_overlap_with(b), Some(2));
}

#[test]
fn overlap_of_a_rectangle_with_itself() {
    let a = Rect::new(3, 4, 10, 20);
    assert_eq!(a.overlap_with(a), Some((10, 20)));
}

#[test]
fn overlap_of_rectangles_apart_is_none() {
    let a = Rect::new(0, 0, 10, 10);
    let b = Rect::new(10, 0, 10, 10);
    assert_eq!(a.overlap_with(b), None);
    assert_eq!(a.x_overlap_with(b), None);
    assert_eq!(a.y_overlap_with(b), None);
}
