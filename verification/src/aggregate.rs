//! The collision aggregation system.
//!
//! Once per tick it rebuilds the global collision snapshot from scratch: the
//! viewport grid is cleared, then every visible collidable entity — single
//! tile or multi-tile — contributes its occupied tiles. The resulting grid is
//! exactly the union of all visible collidable geometry; nothing of the
//! previous tick's contents survives.

use vstd::prelude::*;
use crate::geom::Point;
use crate::grid::GridView;
use crate::resource::CollisionResource;
use crate::world::{spec_coord_ok, World};

verus! {

impl World {
    /// Does entity `e`, through its single-tile collision tag, occupy world
    /// tile (wx, wy)?
    pub open spec fn spec_solid_covers(self, e: int, wx: int, wy: int) -> bool {
        &&& self.spec_solids()[e]
        &&& self.spec_positions()[e] is Some
        &&& self.spec_positions()[e]->0.x == wx
        &&& self.spec_positions()[e]->0.y == wy
    }

    /// Does entity `e`, through its collision-map component anchored at its
    /// position, occupy world tile (wx, wy)?
    pub open spec fn spec_map_covers(self, e: int, wx: int, wy: int) -> bool {
        &&& self.spec_positions()[e] is Some
        &&& self.spec_map_views()[e] is Some
        &&& self.spec_map_views()[e]->0.in_bounds(
            wx - self.spec_positions()[e]->0.x,
            wy - self.spec_positions()[e]->0.y,
        )
        &&& self.spec_map_views()[e]->0.is_set(
            wx - self.spec_positions()[e]->0.x,
            wy - self.spec_positions()[e]->0.y,
        )
    }

    /// Does entity `e` occupy world tile (wx, wy)?
    pub open spec fn spec_covers(self, e: int, wx: int, wy: int) -> bool {
        self.spec_solid_covers(e, wx, wy) || self.spec_map_covers(e, wx, wy)
    }

    /// Is world tile (wx, wy) occupied by one of the first `k` entities?
    pub open spec fn spec_occupied_upto(self, k: int, wx: int, wy: int) -> bool {
        exists|e: int| 0 <= e < k && self.spec_covers(e, wx, wy)
    }

    /// Is world tile (wx, wy) occupied by some collidable entity?
    pub open spec fn spec_occupied(self, wx: int, wy: int) -> bool {
        self.spec_occupied_upto(self.spec_len(), wx, wy)
    }
}

/// Does some cell of grid `g`, anchored at `p`, lying strictly before
/// (row, col) in row-major order, cover world tile (wx, wy)?
pub open spec fn grid_covers_upto(
    g: GridView,
    p: Point,
    row: int,
    col: int,
    wx: int,
    wy: int,
) -> bool {
    exists|jj: int, ii: int|
        #![auto]
        0 <= jj < g.height && 0 <= ii < g.width && (jj < row || (jj == row && ii < col))
            && g.is_set(ii, jj) && wx == p.x + ii && wy == p.y + jj
}

/// Scanning every row of `g` is the same as asking whether the local cell
/// under (wx, wy) is in bounds and set.
proof fn lemma_grid_covers_full(g: GridView, p: Point, wx: int, wy: int)
    ensures
        grid_covers_upto(g, p, g.height, 0, wx, wy) == (g.in_bounds(wx - p.x, wy - p.y)
            && g.is_set(wx - p.x, wy - p.y)),
{
    if grid_covers_upto(g, p, g.height, 0, wx, wy) {
        let (jj, ii) = choose|jj: int, ii: int|
            #![auto]
            0 <= jj < g.height && 0 <= ii < g.width && (jj < g.height || (jj == g.height && ii < 0))
                && g.is_set(ii, jj) && wx == p.x + ii && wy == p.y + jj;
        assert(wx - p.x == ii && wy - p.y == jj);
    }
    if g.in_bounds(wx - p.x, wy - p.y) && g.is_set(wx - p.x, wy - p.y) {
        let jj = wy - p.y;
        let ii = wx - p.x;
        assert(0 <= jj < g.height && 0 <= ii < g.width && (jj < g.height || (jj == g.height && ii
            < 0)) && g.is_set(ii, jj) && wx == p.x + ii && wy == p.y + jj);
    }
}

/// Finishing a row: coverage up to (row, width) equals coverage up to
/// (row + 1, 0).
proof fn lemma_grid_row_rollover(g: GridView, p: Point, row: int, wx: int, wy: int)
    ensures
        grid_covers_upto(g, p, row, g.width, wx, wy) == grid_covers_upto(g, p, row + 1, 0, wx, wy),
{
    if grid_covers_upto(g, p, row, g.width, wx, wy) {
        let (jj, ii) = choose|jj: int, ii: int|
            #![auto]
            0 <= jj < g.height && 0 <= ii < g.width && (jj < row || (jj == row && ii < g.width))
                && g.is_set(ii, jj) && wx == p.x + ii && wy == p.y + jj;
        assert(0 <= jj < g.height && 0 <= ii < g.width && (jj < row + 1 || (jj == row + 1 && ii
            < 0)) && g.is_set(ii, jj) && wx == p.x + ii && wy == p.y + jj);
    }
    if grid_covers_upto(g, p, row + 1, 0, wx, wy) {
        let (jj, ii) = choose|jj: int, ii: int|
            #![auto]
            0 <= jj < g.height && 0 <= ii < g.width && (jj < row + 1 || (jj == row + 1 && ii < 0))
                && g.is_set(ii, jj) && wx == p.x + ii && wy == p.y + jj;
        assert(0 <= jj < g.height && 0 <= ii < g.width && (jj < row || (jj == row && ii < g.width))
            && g.is_set(ii, jj) && wx == p.x + ii && wy == p.y + jj);
    }
}

/// Advancing one cell: coverage up to (row, col + 1) adds exactly the cell
/// (col, row) to coverage up to (row, col).
proof fn lemma_grid_cell_step(g: GridView, p: Point, row: int, col: int, wx: int, wy: int)
    requires
        0 <= row < g.height,
        0 <= col < g.width,
    ensures
        grid_covers_upto(g, p, row, col + 1, wx, wy) == (grid_covers_upto(g, p, row, col, wx, wy)
            || (g.is_set(col, row) && wx == p.x + col && wy == p.y + row)),
{
    if grid_covers_upto(g, p, row, col + 1, wx, wy) {
        let (jj, ii) = choose|jj: int, ii: int|
            #![auto]
            0 <= jj < g.height && 0 <= ii < g.width && (jj < row || (jj == row && ii < col + 1))
                && g.is_set(ii, jj) && wx == p.x + ii && wy == p.y + jj;
        if jj < row || (jj == row && ii < col) {
            assert(grid_covers_upto(g, p, row, col, wx, wy));
        } else {
            assert(jj == row && ii == col);
        }
    }
    if g.is_set(col, row) && wx == p.x + col && wy == p.y + row {
        assert(0 <= row < g.height && 0 <= col < g.width && (row < row || (row == row && col < col
            + 1)) && g.is_set(col, row) && wx == p.x + col && wy == p.y + row);
        assert(grid_covers_upto(g, p, row, col + 1, wx, wy));
    }
}

/// Considering one more entity adds exactly that entity's coverage.
proof fn lemma_occupied_step(w: World, k: int, wx: int, wy: int)
    requires
        0 <= k,
    ensures
        w.spec_occupied_upto(k + 1, wx, wy) == (w.spec_occupied_upto(k, wx, wy) || w.spec_covers(
            k,
            wx,
            wy,
        )),
{
    if w.spec_occupied_upto(k + 1, wx, wy) {
        let e = choose|e: int| 0 <= e < k + 1 && w.spec_covers(e, wx, wy);
        if e < k {
            assert(w.spec_occupied_upto(k, wx, wy));
        }
    }
    if w.spec_covers(k, wx, wy) {
        assert(0 <= k < k + 1 && w.spec_covers(k, wx, wy));
        assert(w.spec_occupied_upto(k + 1, wx, wy));
    }
}

/// Rebuild the collision snapshot from scratch. Afterwards a local bit
/// (i, j) is set iff some collidable entity occupies world tile
/// (position.x + i, position.y + j): the snapshot is the union of all
/// visible collidable geometry, independent of its previous contents.
pub fn combine_collision_system(world: &World, res: &mut CollisionResource)
    requires
        world.wf(),
        old(res).wf(),
    ensures
        final(res).wf(),
        final(res).position == old(res).position,
        final(res).map@.width == old(res).map@.width,
        final(res).map@.height == old(res).map@.height,
        forall|i: int, j: int|
            final(res).map@.in_bounds(i, j) ==> final(res).map.spec_is_set(i, j)
                == world.spec_occupied(
                final(res).position.x + i,
                final(res).position.y + j,
            ),
{
    res.map.clear();
    let ghost vx = res.position.x as int;
    let ghost vy = res.position.y as int;
    let n = world.len();
    let mut e: usize = 0;
    while e < n
        invariant
            world.wf(),
            res.wf(),
            n == world.spec_len(),
            e <= n,
            res.position == old(res).position,
            res.map@.width == old(res).map@.width,
            res.map@.height == old(res).map@.height,
            vx == res.position.x as int,
            vy == res.position.y as int,
            forall|i: int, j: int|
                res.map@.in_bounds(i, j) ==> res.map.spec_is_set(i, j)
                    == world.spec_occupied_upto(e as int, vx + i, vy + j),
        decreases n - e,
    {
        let pos_e = world.position(e);
        match pos_e {
            Some(p) => {
                // Single-tile contribution.
                if world.has_collision(e) && res.is_inside(p) {
                    let (rx, ry) = res.relative_point(p);
                    res.map.set(rx, ry);
                }
                proof {
                    assert forall|i: int, j: int| res.map@.in_bounds(i, j) implies res
                        .map
                        .spec_is_set(i, j) == (world.spec_occupied_upto(e as int, vx + i, vy + j)
                        || world.spec_solid_covers(e as int, vx + i, vy + j)) by {
                        if world.spec_solid_covers(e as int, vx + i, vy + j) {
                            assert(res.spec_is_inside(p));
                        }
                    }
                }
                // Multi-tile contribution.
                if let Some(m) = world.map_ref(e) {
                    let ghost g = world.spec_map_views()[e as int]->0;
                    let (gw, gh) = m.size();
                    proof {
                        assert(world.spec_maps()[e as int]->0.wf());
                    }
                    let mut row: u32 = 0;
                    while row < gh
                        invariant
                            world.wf(),
                            res.wf(),
                            e < world.spec_len(),
                            res.position == old(res).position,
                            res.map@.width == old(res).map@.width,
                            res.map@.height == old(res).map@.height,
                            vx == res.position.x as int,
                            vy == res.position.y as int,
                            world.spec_positions()[e as int] == Some(p),
                            world.spec_map_views()[e as int] == Some(g),
                            g == world.spec_maps()[e as int]->0@,
                            m.wf(),
                            m@ == g,
                            gw == g.width,
                            gh == g.height,
                            gw <= 0x8000,
                            gh <= 0x8000,
                            row <= gh,
                            spec_coord_ok(p),
                            forall|i: int, j: int|
                                res.map@.in_bounds(i, j) ==> res.map.spec_is_set(i, j) == (
                                world.spec_occupied_upto(e as int, vx + i, vy + j)
                                    || world.spec_solid_covers(e as int, vx + i, vy + j)
                                    || grid_covers_upto(g, p, row as int, 0, vx + i, vy + j)),
                        decreases gh - row,
                    {
                        let mut col: u32 = 0;
                        while col < gw
                            invariant
                                world.wf(),
                                res.wf(),
                                e < world.spec_len(),
                                res.position == old(res).position,
                                res.map@.width == old(res).map@.width,
                                res.map@.height == old(res).map@.height,
                                vx == res.position.x as int,
                                vy == res.position.y as int,
                                world.spec_positions()[e as int] == Some(p),
                                world.spec_map_views()[e as int] == Some(g),
                                g == world.spec_maps()[e as int]->0@,
                                m.wf(),
                                m@ == g,
                                gw == g.width,
                                gh == g.height,
                                gw <= 0x8000,
                                gh <= 0x8000,
                                row < gh,
                                col <= gw,
                                spec_coord_ok(p),
                                forall|i: int, j: int|
                                    res.map@.in_bounds(i, j) ==> res.map.spec_is_set(i, j) == (
                                    world.spec_occupied_upto(e as int, vx + i, vy + j)
                                        || world.spec_solid_covers(e as int, vx + i, vy + j)
                                        || grid_covers_upto(
                                        g,
                                        p,
                                        row as int,
                                        col as int,
                                        vx + i,
                                        vy + j,
                                    )),
                            decreases gw - col,
                        {
                            if m.is_set(col, row) {
                                let q = Point { x: p.x + col as i32, y: p.y + row as i32 };
                                if res.is_inside(q) {
                                    let (rx, ry) = res.relative_point(q);
                                    res.map.set(rx, ry);
                                }
                                proof {
                                    assert forall|i: int, j: int|
                                        res.map@.in_bounds(i, j) implies res.map.spec_is_set(i, j)
                                        == (world.spec_occupied_upto(e as int, vx + i, vy + j)
                                        || world.spec_solid_covers(e as int, vx + i, vy + j)
                                        || grid_covers_upto(
                                        g,
                                        p,
                                        row as int,
                                        col + 1 as int,
                                        vx + i,
                                        vy + j,
                                    )) by {
                                        lemma_grid_cell_step(
                                            g,
                                            p,
                                            row as int,
                                            col as int,
                                            vx + i,
                                            vy + j,
                                        );
                                    }
                                }
                            } else {
                                proof {
                                    assert forall|i: int, j: int|
                                        res.map@.in_bounds(i, j) implies res.map.spec_is_set(i, j)
                                        == (world.spec_occupied_upto(e as int, vx + i, vy + j)
                                        || world.spec_solid_covers(e as int, vx + i, vy + j)
                                        || grid_covers_upto(
                                        g,
                                        p,
                                        row as int,
                                        col + 1 as int,
                                        vx + i,
                                        vy + j,
                                    )) by {
                                        lemma_grid_cell_step(
                                            g,
                                            p,
                                            row as int,
                                            col as int,
                                            vx + i,
                                            vy + j,
                                        );
                                    }
                                }
                            }
                            col = col + 1;
                        }
                        proof {
                            assert forall|i: int, j: int| res.map@.in_bounds(i, j) implies res
                                .map
                                .spec_is_set(i, j) == (world.spec_occupied_upto(
                                e as int,
                                vx + i,
                                vy + j,
                            ) || world.spec_solid_covers(e as int, vx + i, vy + j)
                                || grid_covers_upto(
                                g,
                                p,
                                row + 1 as int,
                                0,
                                vx + i,
                                vy + j,
                            )) by {
                                lemma_grid_row_rollover(g, p, row as int, vx + i, vy + j);
                            }
                        }
                        row = row + 1;
                    }
                    proof {
                        assert forall|i: int, j: int| res.map@.in_bounds(i, j) implies res
                            .map
                            .spec_is_set(i, j) == world.spec_occupied_upto(
                            e + 1 as int,
                            vx + i,
                            vy + j,
                        ) by {
                            lemma_grid_covers_full(g, p, vx + i, vy + j);
                            lemma_occupied_step(*world, e as int, vx + i, vy + j);
                        }
                    }
                } else {
                    proof {
                        assert forall|i: int, j: int| res.map@.in_bounds(i, j) implies res
                            .map
                            .spec_is_set(i, j) == world.spec_occupied_upto(
                            e + 1 as int,
                            vx + i,
                            vy + j,
                        ) by {
                            lemma_occupied_step(*world, e as int, vx + i, vy + j);
                        }
                    }
                }
            },
            None => {
                proof {
                    assert forall|i: int, j: int| res.map@.in_bounds(i, j) implies res
                        .map
                        .spec_is_set(i, j) == world.spec_occupied_upto(
                        e + 1 as int,
                        vx + i,
                        vy + j,
                    ) by {
                        lemma_occupied_step(*world, e as int, vx + i, vy + j);
                    }
                }
            },
        }
        e = e + 1;
    }
}

} // verus!
