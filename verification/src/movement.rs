//! The player movement system.
//!
//! For each buffered key since its last read, and for each player entity, it
//! maps the key to a direction and attempts a single-tile move. A move is
//! clamped at the viewport's edges and rejected when the destination tile is
//! occupied in the collision snapshot; otherwise it is committed. When two
//! entities target the same tile in one tick, the last one processed wins —
//! a documented limitation, not arbitration.

use vstd::prelude::*;
use crate::channel::{spec_pending, EventChannel, Key, ReaderId};
use crate::geom::{Direction, Point};
use crate::resource::CollisionResource;
use crate::world::{spec_coord_ok, World};

verus! {

/// The movement system's private read cursor into the event channel.
pub struct PlayerMovementRes {
    pub reader: ReaderId,
}

impl PlayerMovementRes {
    pub fn new(reader: ReaderId) -> (r: PlayerMovementRes)
        ensures
            r.reader == reader,
    {
        PlayerMovementRes { reader }
    }
}

/// The tile a move from `p` towards `dir` aims at: one step away, unless the
/// step would cross the viewport's near edge (local coordinate 0) or far edge
/// (local coordinate extent - 1), in which case the move is clamped and the
/// candidate is `p` itself.
pub open spec fn spec_candidate(p: Point, res: CollisionResource, dir: Direction) -> Point {
    let rel_x = p.x - res.position.x;
    let rel_y = p.y - res.position.y;
    match dir {
        Direction::West => if rel_x > 0 {
            Point { x: (p.x - 1) as i32, y: p.y }
        } else {
            p
        },
        Direction::South => if rel_y < res.map@.height - 1 {
            Point { x: p.x, y: (p.y + 1) as i32 }
        } else {
            p
        },
        Direction::East => if rel_x < res.map@.width - 1 {
            Point { x: (p.x + 1) as i32, y: p.y }
        } else {
            p
        },
        Direction::North => if rel_y > 0 {
            Point { x: p.x, y: (p.y - 1) as i32 }
        } else {
            p
        },
    }
}

/// Where a validated move from `p` towards `dir` ends up: the candidate tile
/// if it is unoccupied in the snapshot, otherwise `p` unchanged.
pub open spec fn spec_move(p: Point, res: CollisionResource, dir: Direction) -> Point {
    let n = spec_candidate(p, res, dir);
    if !res.map.spec_is_set(n.x - res.position.x, n.y - res.position.y) {
        n
    } else {
        p
    }
}

/// The direction a key is bound to, if any.
pub open spec fn spec_key_direction(k: Key) -> Option<Direction> {
    match k {
        Key::H => Some(Direction::West),
        Key::J => Some(Direction::South),
        Key::L => Some(Direction::East),
        Key::K => Some(Direction::North),
        _ => None,
    }
}

/// The effect of one key on a player at `p`: a validated move for a bound
/// key, nothing for any other key.
pub open spec fn spec_move_key(p: Point, res: CollisionResource, k: Key) -> Point {
    match spec_key_direction(k) {
        Some(dir) => spec_move(p, res, dir),
        None => p,
    }
}

/// The effect of a whole batch of keys on a player at `p`, applied in
/// arrival order.
pub open spec fn spec_moves(p: Point, res: CollisionResource, keys: Seq<Key>) -> Point
    decreases keys.len(),
{
    if keys.len() == 0 {
        p
    } else {
        spec_moves(spec_move_key(p, res, keys[0]), res, keys.drop_first())
    }
}

/// A validated move never leaves the viewport.
pub proof fn lemma_move_stays_inside(p: Point, res: CollisionResource, dir: Direction)
    requires
        res.wf(),
        res.spec_is_inside(p),
    ensures
        res.spec_is_inside(spec_move(p, res, dir)),
{
}

/// One key never moves a player out of the viewport.
pub proof fn lemma_move_key_stays_inside(p: Point, res: CollisionResource, k: Key)
    requires
        res.wf(),
        res.spec_is_inside(p),
    ensures
        res.spec_is_inside(spec_move_key(p, res, k)),
{
    match spec_key_direction(k) {
        Some(dir) => lemma_move_stays_inside(p, res, dir),
        None => {},
    }
}

/// A batch of keys never moves a player out of the viewport. This is what
/// lets a driver re-establish `player_movement_system`'s precondition on the
/// next tick.
pub proof fn lemma_moves_stay_inside(p: Point, res: CollisionResource, keys: Seq<Key>)
    requires
        res.wf(),
        res.spec_is_inside(p),
    ensures
        res.spec_is_inside(spec_moves(p, res, keys)),
    decreases keys.len(),
{
    if keys.len() > 0 {
        lemma_move_key_stays_inside(p, res, keys[0]);
        lemma_moves_stay_inside(spec_move_key(p, res, keys[0]), res, keys.drop_first());
    }
}

/// Law (edge clamp): a player on the viewport's near column attempting a
/// West move does not change position.
pub proof fn lemma_move_west_edge_clamp(p: Point, res: CollisionResource)
    requires
        res.wf(),
        res.spec_is_inside(p),
        p.x == res.position.x,
    ensures
        spec_move(p, res, Direction::West) == p,
{
}

/// Law (blocking): a move whose candidate tile is occupied in the snapshot
/// leaves the position unchanged.
pub proof fn lemma_move_blocked(p: Point, res: CollisionResource, dir: Direction)
    requires
        res.wf(),
        res.spec_is_inside(p),
        res.map.spec_is_set(
            spec_candidate(p, res, dir).x - res.position.x,
            spec_candidate(p, res, dir).y - res.position.y,
        ),
    ensures
        spec_move(p, res, dir) == p,
{
}

/// Law (unobstructed move): when the move is not clamped and the candidate
/// tile is free, the position changes by exactly one tile along the move's
/// axis.
pub proof fn lemma_move_unobstructed(p: Point, res: CollisionResource, dir: Direction)
    requires
        res.wf(),
        res.spec_is_inside(p),
        spec_candidate(p, res, dir) != p,
        !res.map.spec_is_set(
            spec_candidate(p, res, dir).x - res.position.x,
            spec_candidate(p, res, dir).y - res.position.y,
        ),
    ensures
        dir == Direction::West ==> spec_move(p, res, dir) == (Point { x: (p.x - 1) as i32, y: p.y }),
        dir == Direction::East ==> spec_move(p, res, dir) == (Point { x: (p.x + 1) as i32, y: p.y }),
        dir == Direction::North ==> spec_move(p, res, dir) == (Point { x: p.x, y: (p.y - 1) as i32 }),
        dir == Direction::South ==> spec_move(p, res, dir) == (Point { x: p.x, y: (p.y + 1) as i32 }),
{
}

/// Attempt a single-tile move of `*p` towards `dir`, validated against the
/// collision snapshot: clamped at the viewport edges, rejected into occupied
/// tiles, committed otherwise.
pub fn try_move(p: &mut Point, map: &CollisionResource, dir: Direction)
    requires
        map.wf(),
        map.spec_is_inside(*old(p)),
    ensures
        *final(p) == spec_move(*old(p), *map, dir),
        map.spec_is_inside(*final(p)),
{
    let rel_x = p.x - map.position.x;
    let rel_y = p.y - map.position.y;
    let (w, h) = map.map.size();
    let mut n = *p;
    match dir {
        Direction::West => if rel_x > 0 {
            n.x = n.x - 1;
        },
        Direction::South => if rel_y < h as i32 - 1 {
            n.y = n.y + 1;
        },
        Direction::East => if rel_x < w as i32 - 1 {
            n.x = n.x + 1;
        },
        Direction::North => if rel_y > 0 {
            n.y = n.y - 1;
        },
    }
    if !map.map.is_set((n.x - map.position.x) as u32, (n.y - map.position.y) as u32) {
        p.x = n.x;
        p.y = n.y;
    }
}

/// Drain the movement cursor and apply every buffered key, in arrival order,
/// to every player entity. Each player's final position is the fold of the
/// batch's validated moves over its starting position; every other component
/// and every other reader's cursor are untouched.
pub fn player_movement_system(
    world: &mut World,
    global_map: &CollisionResource,
    channel: &mut EventChannel,
    res: &PlayerMovementRes,
)
    requires
        old(world).wf(),
        global_map.wf(),
        old(channel).wf(),
        old(channel).spec_valid_reader(&res.reader),
        forall|e: int|
            0 <= e < old(world).spec_len() && old(world).spec_players()[e] && old(
                world,
            ).spec_positions()[e] is Some ==> global_map.spec_is_inside(
                old(world).spec_positions()[e]->0,
            ),
    ensures
        final(world).wf(),
        final(channel).wf(),
        final(channel).spec_events() == old(channel).spec_events(),
        final(channel).spec_num_readers() == old(channel).spec_num_readers(),
        final(channel).spec_cursor(res.reader.spec_id()) == old(channel).spec_events().len(),
        forall|j: int|
            0 <= j < old(channel).spec_num_readers() && j != res.reader.spec_id()
                ==> final(channel).spec_cursor(j) == old(channel).spec_cursor(j),
        final(world).spec_len() == old(world).spec_len(),
        final(world).spec_players() == old(world).spec_players(),
        final(world).spec_solids() == old(world).spec_solids(),
        final(world).spec_maps() == old(world).spec_maps(),
        final(world).spec_mining() == old(world).spec_mining(),
        final(world).spec_spawners() == old(world).spec_spawners(),
        final(world).spec_creeps() == old(world).spec_creeps(),
        forall|e: int|
            0 <= e < old(world).spec_len() ==> final(world).spec_positions()[e] == (
            if old(world).spec_players()[e] && old(world).spec_positions()[e] is Some {
                Some(
                    spec_moves(
                        old(world).spec_positions()[e]->0,
                        *global_map,
                        spec_pending(*old(channel), &res.reader),
                    ),
                )
            } else {
                old(world).spec_positions()[e]
            }),
{
    let keys = channel.read(&res.reader);
    let ghost batch = keys@;
    proof {
        assert(batch.skip(0) =~= batch);
    }
    let n = world.len();
    let mut k: usize = 0;
    while k < keys.len()
        invariant
            world.wf(),
            global_map.wf(),
            n == world.spec_len(),
            n == old(world).spec_len(),
            k <= batch.len(),
            keys@ == batch,
            world.spec_players() == old(world).spec_players(),
            world.spec_solids() == old(world).spec_solids(),
            world.spec_maps() == old(world).spec_maps(),
            world.spec_mining() == old(world).spec_mining(),
            world.spec_spawners() == old(world).spec_spawners(),
            world.spec_creeps() == old(world).spec_creeps(),
            forall|e: int|
                0 <= e < n && !(old(world).spec_players()[e] && old(
                    world,
                ).spec_positions()[e] is Some) ==> world.spec_positions()[e] == old(
                    world,
                ).spec_positions()[e],
            forall|e: int|
                0 <= e < n && old(world).spec_players()[e] && old(
                    world,
                ).spec_positions()[e] is Some ==> {
                    let cur = #[trigger] world.spec_positions()[e];
                    &&& cur is Some
                    &&& global_map.spec_is_inside(cur->0)
                    &&& spec_moves(cur->0, *global_map, batch.skip(k as int)) == spec_moves(
                        old(world).spec_positions()[e]->0,
                        *global_map,
                        batch,
                    )
                },
        decreases keys.len() - k,
    {
        let key = keys[k];
        let ghost snap = world.spec_positions();
        let mut e: usize = 0;
        while e < n
            invariant
                world.wf(),
                global_map.wf(),
                n == world.spec_len(),
                n == old(world).spec_len(),
                e <= n,
                snap.len() == n,
                world.spec_players() == old(world).spec_players(),
                world.spec_solids() == old(world).spec_solids(),
                world.spec_maps() == old(world).spec_maps(),
                world.spec_mining() == old(world).spec_mining(),
                world.spec_spawners() == old(world).spec_spawners(),
                world.spec_creeps() == old(world).spec_creeps(),
                forall|e2: int|
                    0 <= e2 < n && !(old(world).spec_players()[e2] && old(
                        world,
                    ).spec_positions()[e2] is Some) ==> snap[e2] == old(
                        world,
                    ).spec_positions()[e2],
                forall|e2: int|
                    0 <= e2 < n && old(world).spec_players()[e2] && old(
                        world,
                    ).spec_positions()[e2] is Some ==> #[trigger] snap[e2] is Some
                        && global_map.spec_is_inside(snap[e2]->0),
                forall|e2: int|
                    0 <= e2 < n ==> #[trigger] world.spec_positions()[e2] == (
                    if old(world).spec_players()[e2] && old(world).spec_positions()[e2] is Some
                        && e2 < e {
                        Some(spec_move_key(snap[e2]->0, *global_map, key))
                    } else {
                        snap[e2]
                    }),
            decreases n - e,
        {
            if world.is_player(e) {
                if let Some(p0) = world.position(e) {
                    let mut p = p0;
                    match key {
                        Key::H => try_move(&mut p, global_map, Direction::West),
                        Key::J => try_move(&mut p, global_map, Direction::South),
                        Key::L => try_move(&mut p, global_map, Direction::East),
                        Key::K => try_move(&mut p, global_map, Direction::North),
                        _ => {},
                    }
                    proof {
                        assert(p == spec_move_key(p0, *global_map, key));
                        assert(global_map.spec_is_inside(p));
                        assert(spec_coord_ok(p));
                    }
                    world.set_position(e, p);
                }
            }
            e = e + 1;
        }
        proof {
            let ks = batch.skip(k as int);
            assert(ks[0] == batch[k as int]);
            assert(ks.drop_first() =~= batch.skip(k as int + 1));
            assert forall|e2: int|
                0 <= e2 < n && old(world).spec_players()[e2] && old(
                    world,
                ).spec_positions()[e2] is Some implies {
                let cur = #[trigger] world.spec_positions()[e2];
                &&& cur is Some
                &&& global_map.spec_is_inside(cur->0)
                &&& spec_moves(cur->0, *global_map, batch.skip(k as int + 1)) == spec_moves(
                    old(world).spec_positions()[e2]->0,
                    *global_map,
                    batch,
                )
            } by {
                lemma_move_key_stays_inside(snap[e2]->0, *global_map, key);
                assert(spec_moves(snap[e2]->0, *global_map, ks) == spec_moves(
                    spec_move_key(snap[e2]->0, *global_map, ks[0]),
                    *global_map,
                    ks.drop_first(),
                ));
            }
        }
        k = k + 1;
    }
    proof {
        assert(batch.skip(batch.len() as int) =~= Seq::<Key>::empty());
        assert forall|e: int|
            0 <= e < old(world).spec_len() implies world.spec_positions()[e] == (
        if old(world).spec_players()[e] && old(world).spec_positions()[e] is Some {
            Some(
                spec_moves(
                    old(world).spec_positions()[e]->0,
                    *global_map,
                    spec_pending(*old(channel), &res.reader),
                ),
            )
        } else {
            old(world).spec_positions()[e]
        }) by {
            if old(world).spec_players()[e] && old(world).spec_positions()[e] is Some {
                let cur = world.spec_positions()[e];
                assert(spec_moves(cur->0, *global_map, batch.skip(batch.len() as int)) == cur->0);
            }
        }
    }
}

} // verus!
