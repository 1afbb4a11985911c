//! The global collision snapshot: one bit grid sized to the viewport, plus
//! the viewport's world origin.

use vstd::prelude::*;
use crate::geom::Point;
use crate::grid::CollisionMap;

verus! {

/// Largest viewport extent on either axis.
pub const VIEW_LIMIT: u32 = 0x8000;

/// Largest magnitude of a viewport origin coordinate, chosen so that every
/// point inside the viewport stays within `COORD_LIMIT` of the world origin.
pub const ORIGIN_LIMIT: i32 = 0x3fff_0000;

/// The authoritative "what is solid, right now, in view" snapshot: a bit grid
/// sized to the viewport, with `position` the world coordinate of its local
/// (0, 0) cell.
pub struct CollisionResource {
    pub map: CollisionMap,
    pub position: Point,
}

impl CollisionResource {
    /// The grid is well formed and small enough, and the origin is bounded,
    /// so that world-to-local coordinate transforms stay in `i32` range.
    pub open spec fn wf(&self) -> bool {
        &&& self.map.wf()
        &&& 0 < self.map@.width <= VIEW_LIMIT
        &&& 0 < self.map@.height <= VIEW_LIMIT
        &&& -ORIGIN_LIMIT <= self.position.x <= ORIGIN_LIMIT
        &&& -ORIGIN_LIMIT <= self.position.y <= ORIGIN_LIMIT
    }

    /// True iff world point `p` falls within [position, position + size) on
    /// both axes.
    pub open spec fn spec_is_inside(&self, p: Point) -> bool {
        &&& self.position.x <= p.x < self.position.x + self.map@.width
        &&& self.position.y <= p.y < self.position.y + self.map@.height
    }

    /// Local grid coordinates of world point `p`.
    pub open spec fn spec_relative_point(&self, p: Point) -> (int, int) {
        (p.x - self.position.x, p.y - self.position.y)
    }

    pub fn new(map: CollisionMap, position: Point) -> (r: CollisionResource)
        ensures
            r.map == map,
            r.position == position,
    {
        CollisionResource { map, position }
    }

    /// Does world point `p` fall inside the viewport?
    pub fn is_inside(&self, p: Point) -> (r: bool)
        requires
            self.wf(),
        ensures
            r == self.spec_is_inside(p),
    {
        let (w, h) = self.map.size();
        p.x >= self.position.x && p.x < self.position.x + w as i32 && p.y >= self.position.y
            && p.y < self.position.y + h as i32
    }

    /// Convert a world point to local grid coordinates. The point must lie
    /// inside the viewport.
    pub fn relative_point(&self, p: Point) -> (r: (u32, u32))
        requires
            self.wf(),
            self.spec_is_inside(p),
        ensures
            (r.0 as int, r.1 as int) == self.spec_relative_point(p),
            r.0 < self.map@.width,
            r.1 < self.map@.height,
    {
        ((p.x - self.position.x) as u32, (p.y - self.position.y) as u32)
    }
}

} // verus!
