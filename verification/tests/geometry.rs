use node_graph::{Offset, Point};

#[test]
fn offset_is_the_difference_of_the_coordinates() {
    let pointer = Point::new(13, 7);
    let position = Point::new(10, 20);
    assert_eq!(pointer.offset_from(position), Offset { dx: 3, dy: -13 });
}

#[test]
fn offset_between_the_far_corners_does_not_overflow() {
    let low = Point::new(i32::MIN, i32::MIN);
    let high = Point::new(i32::MAX, i32::MAX);
    assert_eq!(high.offset_from(low), Offset { dx: 4294967295, dy: 4294967295 });
    assert_eq!(low.offset_from(high), Offset { dx: -4294967295, dy: -4294967295 });
}

#[test]
fn back_by_subtracts_the_offset() {
    let pointer = Point::new(50, 60);
    assert_eq!(pointer.back_by(Offset { dx: 3, dy: -13 }), Point { x: 47, y: 73 });
}

#[test]
fn back_by_stops_at_the_ends_of_the_range() {
    let pointer = Point::new(10, -10);
    let offset = Offset { dx: -(i32::MAX as i64), dy: i32::MAX as i64 };
    assert_eq!(pointer.back_by(offset), Point { x: i32::MAX, y: i32::MIN });
    let huge = Offset { dx: i64::MIN, dy: i64::MAX };
    assert_eq!(pointer.back_by(huge), Point { x: i32::MAX, y: i32::MIN });
}

#[test]
fn back_by_reaches_the_ends_of_the_range_exactly() {
    let pointer = Point::new(0, 0);
    let offset = Offset { dx: -(i32::MAX as i64), dy: -(i32::MIN as i64) };
    assert_eq!(pointer.back_by(offset), Point { x: i32::MAX, y: i32::MIN });
}

#[test]
fn moving_back_by_the_own_offset_gives_the_origin() {
    let origins = [Point::new(0, 0), Point::new(i32::MIN, i32::MAX), Point::new(-7, 900)];
    let pointers = [Point::new(5, 5), Point::new(i32::MAX, i32::MIN), Point::new(0, -1)];
    for origin in origins {
        for pointer in pointers {
            assert_eq!(pointer.back_by(pointer.offset_from(origin)), origin);
        }
    }
}
