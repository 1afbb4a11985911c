//! World coordinates and compass directions.

use vstd::prelude::*;

verus! {

/// An integer (x, y) world coordinate. Attached to any entity that
/// participates in space.
#[derive(Clone, Copy, Debug, PartialEq, Eq, Structural)]
pub struct Point {
    pub x: i32,
    pub y: i32,
}

impl Point {
    pub fn new(x: i32, y: i32) -> (p: Point)
        ensures
            p.x == x,
            p.y == y,
    {
        Point { x, y }
    }
}

/// One of the four single-tile move directions.
#[derive(Clone, Copy, Debug, PartialEq, Eq, Structural)]
pub enum Direction {
    North,
    East,
    South,
    West,
}

/// True iff the point (pos_x, pos_y) lies inside the axis-aligned rectangle
/// whose lower corner is (rect_x, rect_y) and whose extent is (size_x, size_y):
/// rect_x <= pos_x < rect_x + size_x, and likewise on the y axis.
pub open spec fn spec_inside_rect(
    pos_x: int,
    pos_y: int,
    rect_x: int,
    rect_y: int,
    size_x: int,
    size_y: int,
) -> bool {
    &&& rect_x <= pos_x < rect_x + size_x
    &&& rect_y <= pos_y < rect_y + size_y
}

/// Point-in-rectangle test on world coordinates.
pub fn position_inside_rect(
    pos_x: i32,
    pos_y: i32,
    rect_x: i32,
    rect_y: i32,
    size_x: u32,
    size_y: u32,
) -> (r: bool)
    requires
        size_x <= i32::MAX,
        size_y <= i32::MAX,
        rect_x + size_x <= i32::MAX,
        rect_y + size_y <= i32::MAX,
    ensures
        r == spec_inside_rect(
            pos_x as int,
            pos_y as int,
            rect_x as int,
            rect_y as int,
            size_x as int,
            size_y as int,
        ),
{
    pos_x >= rect_x && pos_x < rect_x + size_x as i32 && pos_y >= rect_y && pos_y < rect_y
        + size_y as i32
}

} // verus!
