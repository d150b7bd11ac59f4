use flooting::physics::Position;
use flooting::rectangle::{Rectangle, RectangleSize, Size};

fn missile_sized(x: i32, y: i32) -> Rectangle {
    Rectangle {
        position: Position { x, y },
        size: Size::Rectangle(RectangleSize { width: 15, height: 10 }),
    }
}

fn square(x: i32, y: i32, edge: u32) -> Rectangle {
    Rectangle { position: Position { x, y }, size: Size::Square(edge) }
}

#[test]
fn square_size_has_equal_width_and_height() {
    let size = Rectangle::to_rectangle_size(Size::Square(7));
    assert_eq!(size, RectangleSize { width: 7, height: 7 });
}

#[test]
fn rectangle_size_is_kept() {
    let size = Rectangle::to_rectangle_size(Size::Rectangle(RectangleSize { width: 3, height: 9 }));
    assert_eq!(size.width, 3);
    assert_eq!(size.height, 9);
}

#[test]
fn corners_lie_half_the_size_from_the_centre() {
    let corners = missile_sized(100, 50).get_corners();
    assert_eq!(corners.top_left, Position { x: 93, y: 45 });
    assert_eq!(corners.top_right, Position { x: 107, y: 45 });
    assert_eq!(corners.bottom_left, Position { x: 93, y: 55 });
    assert_eq!(corners.bottom_right, Position { x: 107, y: 55 });
}

#[test]
fn corners_of_a_square() {
    let corners = square(0, 0, 44).get_corners();
    assert_eq!(corners.top_left, Position { x: -22, y: -22 });
    assert_eq!(corners.bottom_right, Position { x: 22, y: 22 });
}

#[test]
fn corners_stay_on_the_axes() {
    let corners = square(i32::MAX, i32::MIN, 10).get_corners();
    assert_eq!(corners.top_left, Position { x: i32::MAX - 5, y: i32::MIN });
    assert_eq!(corners.top_right, Position { x: i32::MAX, y: i32::MIN });
    assert_eq!(corners.bottom_left, Position { x: i32::MAX - 5, y: i32::MIN + 5 });
    assert_eq!(corners.bottom_right, Position { x: i32::MAX, y: i32::MIN + 5 });
}

#[test]
fn corners_of_the_widest_rectangle() {
    let corners = square(0, 0, u32::MAX).get_corners();
    assert_eq!(corners.top_left, Position { x: -i32::MAX, y: -i32::MAX });
    assert_eq!(corners.bottom_right, Position { x: i32::MAX, y: i32::MAX });
}

#[test]
fn a_rectangle_contains_what_lies_strictly_inside() {
    let rectangle = missile_sized(100, 50);
    assert!(rectangle.contains_position(Position { x: 100, y: 50 }));
    assert!(rectangle.contains_position(Position { x: 94, y: 46 }));
    assert!(rectangle.contains_position(Position { x: 106, y: 54 }));
}

#[test]
fn a_rectangle_does_not_contain_its_edges() {
    let rectangle = missile_sized(100, 50);
    assert!(!rectangle.contains_position(Position { x: 93, y: 50 }));
    assert!(!rectangle.contains_position(Position { x: 107, y: 50 }));
    assert!(!rectangle.contains_position(Position { x: 100, y: 45 }));
    assert!(!rectangle.contains_position(Position { x: 100, y: 55 }));
    assert!(!rectangle.contains_position(Position { x: 93, y: 45 }));
}

#[test]
fn a_rectangle_does_not_contain_what_lies_outside() {
    let rectangle = missile_sized(100, 50);
    assert!(!rectangle.contains_position(Position { x: 0, y: 0 }));
    assert!(!rectangle.contains_position(Position { x: 100, y: 60 }));
    assert!(!rectangle.contains_position(Position { x: 110, y: 50 }));
}

#[test]
fn a_rectangle_without_size_contains_nothing() {
    let rectangle = square(100, 50, 0);
    assert!(!rectangle.contains_position(Position { x: 100, y: 50 }));
    let thin = square(100, 50, 1);
    assert!(!thin.contains_position(Position { x: 100, y: 50 }));
}

#[test]
fn a_corner_inside_is_an_overlap() {
    let asteroid = square(100, 50, 44);
    let missile = missile_sized(120, 50);
    assert!(missile.over(asteroid));
}

#[test]
fn overlap_is_not_symmetric() {
    let asteroid = square(100, 50, 44);
    let missile = missile_sized(120, 50);
    assert!(missile.over(asteroid));
    assert!(!asteroid.over(missile));
}

#[test]
fn an_enclosing_rectangle_has_no_corner_inside() {
    let large = square(100, 100, 100);
    let small = square(100, 100, 10);
    assert!(small.over(large));
    assert!(!large.over(small));
}

#[test]
fn rectangles_apart_do_not_overlap() {
    let a = square(100, 100, 20);
    let b = square(200, 100, 20);
    assert!(!a.over(b));
    assert!(!b.over(a));
}

#[test]
fn rectangles_that_touch_do_not_overlap() {
    let a = square(100, 100, 20);
    let b = square(120, 100, 20);
    assert!(!a.over(b));
    assert!(!b.over(a));
}

#[test]
fn nothing_overlaps_a_rectangle_without_size() {
    let point = square(100, 100, 0);
    let around = square(100, 100, 50);
    assert!(!around.over(point));
    assert!(point.over(around));
}
