//! Canvas coordinates. Positions are whole pixels; the difference of two
//! positions is wide enough never to overflow.

use vstd::prelude::*;

verus! {

/// A position on the canvas, in whole pixels.
#[derive(Clone, Copy, Debug, PartialEq, Eq, Hash, Structural)]
pub struct Point {
    pub x: i32,
    pub y: i32,
}

/// The displacement from one point to another.
#[derive(Clone, Copy, Debug, PartialEq, Eq, Hash, Structural)]
pub struct Offset {
    pub dx: i64,
    pub dy: i64,
}

/// The coordinate nearest to `value` that a point can hold.
pub open spec fn clamp_coordinate(value: int) -> i32 {
    if value < i32::MIN {
        i32::MIN
    } else if value > i32::MAX {
        i32::MAX
    } else {
        value as i32
    }
}

impl Point {
    /// The point at `(x, y)`.
    pub fn new(x: i32, y: i32) -> (point: Point)
        ensures
            point == (Point { x, y }),
    {
        Point { x, y }
    }

    /// The displacement that leads from `origin` to this point.
    pub open spec fn spec_offset_from(self, origin: Point) -> Offset {
        Offset { dx: (self.x - origin.x) as i64, dy: (self.y - origin.y) as i64 }
    }

    /// The displacement that leads from `origin` to this point.
    pub fn offset_from(self, origin: Point) -> (offset: Offset)
        ensures
            offset == self.spec_offset_from(origin),
            offset.dx == self.x - origin.x,
            offset.dy == self.y - origin.y,
    {
        Offset { dx: self.x as i64 - origin.x as i64, dy: self.y as i64 - origin.y as i64 }
    }

    /// This point moved back by `offset`, each coordinate kept within the
    /// range of a point's coordinates.
    pub open spec fn spec_back_by(self, offset: Offset) -> Point {
        Point {
            x: clamp_coordinate(self.x - offset.dx),
            y: clamp_coordinate(self.y - offset.dy),
        }
    }

    /// This point moved back by `offset`. A coordinate that would leave the
    /// range of a point's coordinates stops at the end of the range.
    pub fn back_by(self, offset: Offset) -> (point: Point)
        ensures
            point == self.spec_back_by(offset),
    {
        let x: i32 = clamped_difference(self.x, offset.dx);
        let y: i32 = clamped_difference(self.y, offset.dy);
        Point { x, y }
    }
}

/// `coordinate - delta`, kept within the range of a point's coordinates.
fn clamped_difference(coordinate: i32, delta: i64) -> (clamped: i32)
    ensures
        clamped == clamp_coordinate(coordinate - delta),
{
    let wide: i128 = coordinate as i128 - delta as i128;
    if wide < i32::MIN as i128 {
        i32::MIN
    } else if wide > i32::MAX as i128 {
        i32::MAX
    } else {
        wide as i32
    }
}

/// Moving a point back by its own displacement from `origin` gives `origin`.
pub proof fn lemma_back_to_origin(point: Point, origin: Point)
    ensures
        point.spec_back_by(point.spec_offset_from(origin)) == origin,
{
}

} // verus!
