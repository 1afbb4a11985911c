//! The entity-component store: parallel per-entity arrays of optional
//! components, keyed by a dense entity index. Systems iterate the indices and
//! act on entities that carry the components they need.

use vstd::prelude::*;
use crate::geom::Point;
use crate::grid::{CollisionMap, GridView};
use crate::resource::VIEW_LIMIT;

verus! {

/// Largest magnitude of a world coordinate held in the store, so that
/// translating any stored position by any stored grid extent stays within
/// `i32` range.
pub const COORD_LIMIT: i32 = 0x4000_0000;

/// A world coordinate the store accepts.
pub open spec fn spec_coord_ok(p: Point) -> bool {
    &&& -COORD_LIMIT <= p.x <= COORD_LIMIT
    &&& -COORD_LIMIT <= p.y <= COORD_LIMIT
}

/// Per-entity component data. An entity is an index valid in every column;
/// a `None` or `false` entry means the entity lacks that component.
pub struct World {
    pub(crate) positions: Vec<Option<Point>>,
    pub(crate) players: Vec<bool>,
    pub(crate) solids: Vec<bool>,
    pub(crate) maps: Vec<Option<CollisionMap>>,
    pub(crate) mining: Vec<bool>,
    pub(crate) spawners: Vec<Option<u32>>,
    pub(crate) creeps: Vec<bool>,
}

impl World {
    /// Number of entities.
    pub closed spec fn spec_len(&self) -> int {
        self.positions@.len() as int
    }

    /// Position component column.
    pub closed spec fn spec_positions(&self) -> Seq<Option<Point>> {
        self.positions@
    }

    /// Player tag column.
    pub closed spec fn spec_players(&self) -> Seq<bool> {
        self.players@
    }

    /// Single-tile collision tag column.
    pub closed spec fn spec_solids(&self) -> Seq<bool> {
        self.solids@
    }

    /// Collision-map component column.
    pub closed spec fn spec_maps(&self) -> Seq<Option<CollisionMap>> {
        self.maps@
    }

    /// Collision-map component column, as grid views.
    pub open spec fn spec_map_views(&self) -> Seq<Option<GridView>> {
        Seq::new(
            self.spec_maps().len(),
            |e: int|
                match self.spec_maps()[e] {
                    Some(m) => Some(m@),
                    None => None,
                },
        )
    }

    /// Mining-layer tag column.
    pub closed spec fn spec_mining(&self) -> Seq<bool> {
        self.mining@
    }

    /// Spawner countdown column.
    pub closed spec fn spec_spawners(&self) -> Seq<Option<u32>> {
        self.spawners@
    }

    /// Creep tag column.
    pub closed spec fn spec_creeps(&self) -> Seq<bool> {
        self.creeps@
    }

    /// All columns cover the same entities; every stored position is bounded
    /// and every stored grid is well formed and of bounded extent.
    pub open spec fn wf(&self) -> bool {
        &&& self.spec_positions().len() == self.spec_len()
        &&& self.spec_players().len() == self.spec_len()
        &&& self.spec_solids().len() == self.spec_len()
        &&& self.spec_maps().len() == self.spec_len()
        &&& self.spec_mining().len() == self.spec_len()
        &&& self.spec_spawners().len() == self.spec_len()
        &&& self.spec_creeps().len() == self.spec_len()
        &&& forall|e: int|
            0 <= e < self.spec_len() && self.spec_positions()[e] is Some
                ==> spec_coord_ok(self.spec_positions()[e]->0)
        &&& forall|e: int|
            0 <= e < self.spec_len() && self.spec_maps()[e] is Some ==> {
                let g = #[trigger] self.spec_maps()[e]->0;
                &&& g.wf()
                &&& g@.width <= VIEW_LIMIT
                &&& g@.height <= VIEW_LIMIT
            }
    }

    /// An empty store.
    pub fn new() -> (w: World)
        ensures
            w.wf(),
            w.spec_len() == 0,
    {
        World {
            positions: Vec::new(),
            players: Vec::new(),
            solids: Vec::new(),
            maps: Vec::new(),
            mining: Vec::new(),
            spawners: Vec::new(),
            creeps: Vec::new(),
        }
    }

    /// Number of entities.
    pub fn len(&self) -> (n: usize)
        ensures
            n == self.spec_len(),
    {
        self.positions.len()
    }

    /// Add a fresh entity with no components; returns its index.
    pub fn create_entity(&mut self) -> (e: usize)
        requires
            old(self).wf(),
        ensures
            final(self).wf(),
            e == old(self).spec_len(),
            final(self).spec_len() == old(self).spec_len() + 1,
            final(self).spec_positions() == old(self).spec_positions().push(None),
            final(self).spec_players() == old(self).spec_players().push(false),
            final(self).spec_solids() == old(self).spec_solids().push(false),
            final(self).spec_maps() == old(self).spec_maps().push(None),
            final(self).spec_mining() == old(self).spec_mining().push(false),
            final(self).spec_spawners() == old(self).spec_spawners().push(None),
            final(self).spec_creeps() == old(self).spec_creeps().push(false),
    {
        let e = self.positions.len();
        self.positions.push(None);
        self.players.push(false);
        self.solids.push(false);
        self.maps.push(None);
        self.mining.push(false);
        self.spawners.push(None);
        self.creeps.push(false);
        e
    }

    /// Attach (or overwrite) entity `e`'s position.
    pub fn set_position(&mut self, e: usize, p: Point)
        requires
            old(self).wf(),
            e < old(self).spec_len(),
            spec_coord_ok(p),
        ensures
            final(self).wf(),
            final(self).spec_positions() == old(self).spec_positions().update(e as int, Some(p)),
            final(self).spec_len() == old(self).spec_len(),
            final(self).spec_players() == old(self).spec_players(),
            final(self).spec_solids() == old(self).spec_solids(),
            final(self).spec_maps() == old(self).spec_maps(),
            final(self).spec_mining() == old(self).spec_mining(),
            final(self).spec_spawners() == old(self).spec_spawners(),
            final(self).spec_creeps() == old(self).spec_creeps(),
    {
        self.positions[e] = Some(p);
    }

    /// Tag entity `e` as the player.
    pub fn add_player(&mut self, e: usize)
        requires
            old(self).wf(),
            e < old(self).spec_len(),
        ensures
            final(self).wf(),
            final(self).spec_players() == old(self).spec_players().update(e as int, true),
            final(self).spec_len() == old(self).spec_len(),
            final(self).spec_positions() == old(self).spec_positions(),
            final(self).spec_solids() == old(self).spec_solids(),
            final(self).spec_maps() == old(self).spec_maps(),
            final(self).spec_mining() == old(self).spec_mining(),
            final(self).spec_spawners() == old(self).spec_spawners(),
            final(self).spec_creeps() == old(self).spec_creeps(),
    {
        self.players[e] = true;
    }

    /// Tag entity `e` as occupying exactly the tile at its position.
    pub fn add_collision(&mut self, e: usize)
        requires
            old(self).wf(),
            e < old(self).spec_len(),
        ensures
            final(self).wf(),
            final(self).spec_solids() == old(self).spec_solids().update(e as int, true),
            final(self).spec_len() == old(self).spec_len(),
            final(self).spec_positions() == old(self).spec_positions(),
            final(self).spec_players() == old(self).spec_players(),
            final(self).spec_maps() == old(self).spec_maps(),
            final(self).spec_mining() == old(self).spec_mining(),
            final(self).spec_spawners() == old(self).spec_spawners(),
            final(self).spec_creeps() == old(self).spec_creeps(),
    {
        self.solids[e] = true;
    }

    /// Attach a multi-tile collision grid to entity `e`, anchored at its
    /// position.
    pub fn add_collision_map(&mut self, e: usize, m: CollisionMap)
        requires
            old(self).wf(),
            e < old(self).spec_len(),
            m.wf(),
            m@.width <= VIEW_LIMIT,
            m@.height <= VIEW_LIMIT,
        ensures
            final(self).wf(),
            final(self).spec_maps() == old(self).spec_maps().update(e as int, Some(m)),
            final(self).spec_len() == old(self).spec_len(),
            final(self).spec_positions() == old(self).spec_positions(),
            final(self).spec_players() == old(self).spec_players(),
            final(self).spec_solids() == old(self).spec_solids(),
            final(self).spec_mining() == old(self).spec_mining(),
            final(self).spec_spawners() == old(self).spec_spawners(),
            final(self).spec_creeps() == old(self).spec_creeps(),
    {
        self.maps[e] = Some(m);
    }

    /// Tag entity `e`'s collision map as the minable terrain layer.
    pub fn add_mining_tag(&mut self, e: usize)
        requires
            old(self).wf(),
            e < old(self).spec_len(),
        ensures
            final(self).wf(),
            final(self).spec_mining() == old(self).spec_mining().update(e as int, true),
            final(self).spec_len() == old(self).spec_len(),
            final(self).spec_positions() == old(self).spec_positions(),
            final(self).spec_players() == old(self).spec_players(),
            final(self).spec_solids() == old(self).spec_solids(),
            final(self).spec_maps() == old(self).spec_maps(),
            final(self).spec_spawners() == old(self).spec_spawners(),
            final(self).spec_creeps() == old(self).spec_creeps(),
    {
        self.mining[e] = true;
    }

    /// Give entity `e` a spawner countdown.
    pub fn add_spawner(&mut self, e: usize, countdown: u32)
        requires
            old(self).wf(),
            e < old(self).spec_len(),
        ensures
            final(self).wf(),
            final(self).spec_spawners() == old(self).spec_spawners().update(
                e as int,
                Some(countdown),
            ),
            final(self).spec_len() == old(self).spec_len(),
            final(self).spec_positions() == old(self).spec_positions(),
            final(self).spec_players() == old(self).spec_players(),
            final(self).spec_solids() == old(self).spec_solids(),
            final(self).spec_maps() == old(self).spec_maps(),
            final(self).spec_mining() == old(self).spec_mining(),
            final(self).spec_creeps() == old(self).spec_creeps(),
    {
        self.spawners[e] = Some(countdown);
    }

    /// Tag entity `e` as a creep.
    pub fn add_creep(&mut self, e: usize)
        requires
            old(self).wf(),
            e < old(self).spec_len(),
        ensures
            final(self).wf(),
            final(self).spec_creeps() == old(self).spec_creeps().update(e as int, true),
            final(self).spec_len() == old(self).spec_len(),
            final(self).spec_positions() == old(self).spec_positions(),
            final(self).spec_players() == old(self).spec_players(),
            final(self).spec_solids() == old(self).spec_solids(),
            final(self).spec_maps() == old(self).spec_maps(),
            final(self).spec_mining() == old(self).spec_mining(),
            final(self).spec_spawners() == old(self).spec_spawners(),
    {
        self.creeps[e] = true;
    }

    /// Entity `e`'s position, if it has one.
    pub fn position(&self, e: usize) -> (p: Option<Point>)
        requires
            e < self.spec_len(),
        ensures
            p == self.spec_positions()[e as int],
    {
        self.positions[e]
    }

    /// Is entity `e` tagged as the player?
    pub fn is_player(&self, e: usize) -> (r: bool)
        requires
            self.wf(),
            e < self.spec_len(),
        ensures
            r == self.spec_players()[e as int],
    {
        self.players[e]
    }

    /// Is entity `e` tagged as a creep?
    pub fn is_creep(&self, e: usize) -> (r: bool)
        requires
            self.wf(),
            e < self.spec_len(),
        ensures
            r == self.spec_creeps()[e as int],
    {
        self.creeps[e]
    }

    /// Does entity `e` carry the mining-layer tag?
    pub fn has_mining_tag(&self, e: usize) -> (r: bool)
        requires
            self.wf(),
            e < self.spec_len(),
        ensures
            r == self.spec_mining()[e as int],
    {
        self.mining[e]
    }

    /// Does entity `e` occupy exactly the tile at its position?
    pub fn has_collision(&self, e: usize) -> (r: bool)
        requires
            self.wf(),
            e < self.spec_len(),
        ensures
            r == self.spec_solids()[e as int],
    {
        self.solids[e]
    }

    /// Entity `e`'s spawner countdown, if it has one.
    pub fn spawner_countdown(&self, e: usize) -> (c: Option<u32>)
        requires
            self.wf(),
            e < self.spec_len(),
        ensures
            c == self.spec_spawners()[e as int],
    {
        self.spawners[e]
    }

    /// Remove and return entity `e`'s collision map, leaving the slot empty.
    pub fn take_map(&mut self, e: usize) -> (m: Option<CollisionMap>)
        requires
            old(self).wf(),
            e < old(self).spec_len(),
        ensures
            final(self).wf(),
            m == old(self).spec_maps()[e as int],
            final(self).spec_maps() == old(self).spec_maps().update(
                e as int,
                Option::<CollisionMap>::None,
            ),
            final(self).spec_len() == old(self).spec_len(),
            final(self).spec_positions() == old(self).spec_positions(),
            final(self).spec_players() == old(self).spec_players(),
            final(self).spec_solids() == old(self).spec_solids(),
            final(self).spec_mining() == old(self).spec_mining(),
            final(self).spec_spawners() == old(self).spec_spawners(),
            final(self).spec_creeps() == old(self).spec_creeps(),
    {
        self.maps[e].take()
    }

    /// Put a collision map back into entity `e`'s slot.
    pub fn put_map(&mut self, e: usize, m: CollisionMap)
        requires
            old(self).wf(),
            e < old(self).spec_len(),
            m.wf(),
            m@.width <= VIEW_LIMIT,
            m@.height <= VIEW_LIMIT,
        ensures
            final(self).wf(),
            final(self).spec_maps() == old(self).spec_maps().update(e as int, Some(m)),
            final(self).spec_len() == old(self).spec_len(),
            final(self).spec_positions() == old(self).spec_positions(),
            final(self).spec_players() == old(self).spec_players(),
            final(self).spec_solids() == old(self).spec_solids(),
            final(self).spec_mining() == old(self).spec_mining(),
            final(self).spec_spawners() == old(self).spec_spawners(),
            final(self).spec_creeps() == old(self).spec_creeps(),
    {
        self.maps[e] = Some(m);
    }

    /// Borrow entity `e`'s collision-map slot.
    pub fn map_ref(&self, e: usize) -> (r: &Option<CollisionMap>)
        requires
            self.wf(),
            e < self.spec_len(),
        ensures
            *r == self.spec_maps()[e as int],
    {
        &self.maps[e]
    }

    /// The dimensions of entity `e`'s collision map, if it has one.
    pub fn map_size(&self, e: usize) -> (s: Option<(u32, u32)>)
        requires
            self.wf(),
            e < self.spec_len(),
        ensures
            s is Some <==> self.spec_maps()[e as int] is Some,
            s is Some ==> (s->0).0 == self.spec_map_views()[e as int]->0.width && (s->0).1
                == self.spec_map_views()[e as int]->0.height,
    {
        match &self.maps[e] {
            Some(m) => Some(m.size()),
            None => None,
        }
    }

    /// The occupancy bit at (x, y) of entity `e`'s collision map.
    pub fn map_is_set(&self, e: usize, x: u32, y: u32) -> (r: bool)
        requires
            self.wf(),
            e < self.spec_len(),
            self.spec_maps()[e as int] is Some,
            x < self.spec_map_views()[e as int]->0.width,
            y < self.spec_map_views()[e as int]->0.height,
        ensures
            r == self.spec_map_views()[e as int]->0.is_set(x as int, y as int),
    {
        match &self.maps[e] {
            Some(m) => m.is_set(x, y),
            None => false,
        }
    }
}

} // verus!
