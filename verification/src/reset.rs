//! The reset system.
//!
//! On a reset-action event it re-initializes every mining-layer grid to the
//! generated baseline (an open band of top rows, solid rows below), returns
//! every player to the fixed spawn point, and zeroes the channeled mining
//! progress. The lifetime counters `money` and `mined` are deliberately left
//! untouched.

use vstd::prelude::*;
use crate::channel::{spec_pending, EventChannel, Key, ReaderId};
use crate::components::Progress;
use crate::geom::Point;
use crate::grid::{CollisionMap, GridView};
use crate::world::{spec_coord_ok, World};
use crate::WIDTH;

verus! {

/// Number of open (unoccupied) rows at the top of a freshly generated
/// terrain grid; every row below is solid.
pub const OPEN_ROWS: u32 = 20;

/// The reset system's private read cursor into the event channel.
pub struct ResetRes {
    pub reader: ReaderId,
}

impl ResetRes {
    pub fn new(reader: ReaderId) -> (r: ResetRes)
        ensures
            r.reader == reader,
    {
        ResetRes { reader }
    }
}

/// Where a reset puts the player: the middle of the field, near its top.
pub open spec fn spec_spawn_point() -> Point {
    Point { x: (WIDTH / 2) as i32, y: 10 }
}

/// Is `g` the generated baseline terrain? Its top rows are open and every
/// row from `OPEN_ROWS` down is fully solid.
pub open spec fn spec_is_baseline(g: GridView) -> bool {
    forall|x: int, y: int| g.in_bounds(x, y) ==> g.is_set(x, y) == (y >= OPEN_ROWS)
}

/// Overwrite every cell of `coll` with the generated baseline: rows above
/// `OPEN_ROWS` open, rows from `OPEN_ROWS` down solid.
pub fn init_collision_map(coll: &mut CollisionMap)
    requires
        old(coll).wf(),
    ensures
        final(coll).wf(),
        final(coll)@.width == old(coll)@.width,
        final(coll)@.height == old(coll)@.height,
        spec_is_baseline(final(coll)@),
{
    let (w, h) = coll.size();
    let mut i: u32 = 0;
    while i < w
        invariant
            coll.wf(),
            coll@.width == w,
            coll@.height == h,
            i <= w,
            forall|x: int, y: int|
                coll@.in_bounds(x, y) && x < i ==> coll.spec_is_set(x, y) == (y >= OPEN_ROWS),
        decreases w - i,
    {
        let mut j: u32 = 0;
        while j < h
            invariant
                coll.wf(),
                coll@.width == w,
                coll@.height == h,
                i < w,
                j <= h,
                forall|x: int, y: int|
                    coll@.in_bounds(x, y) && x < i ==> coll.spec_is_set(x, y) == (y >= OPEN_ROWS),
                forall|y: int|
                    0 <= y < j ==> coll.spec_is_set(i as int, y) == (y >= OPEN_ROWS),
            decreases h - j,
        {
            if j < OPEN_ROWS {
                coll.unset(i, j);
            } else {
                coll.set(i, j);
            }
            j = j + 1;
        }
        i = i + 1;
    }
    proof {
        assert forall|x: int, y: int| coll@.in_bounds(x, y) implies coll@.is_set(x, y) == (y
            >= OPEN_ROWS) by {
            assert(coll.spec_is_set(x, y) == (y >= OPEN_ROWS));
        }
    }
}

/// `take(k + 1)` of a log contains a key iff `take(k)` does or the key is at
/// index `k`.
proof fn lemma_take_contains(s: Seq<Key>, k: int, x: Key)
    requires
        0 <= k < s.len(),
    ensures
        s.take(k + 1).contains(x) == (s.take(k).contains(x) || s[k] == x),
{
    if s.take(k + 1).contains(x) {
        let i = choose|i: int| 0 <= i < k + 1 && #[trigger] s.take(k + 1)[i] == x;
        if i < k {
            assert(s.take(k)[i] == x);
            assert(s.take(k).contains(x));
        } else {
            assert(s[k] == x);
        }
    }
    if s.take(k).contains(x) {
        let i = choose|i: int| 0 <= i < k && #[trigger] s.take(k)[i] == x;
        assert(s.take(k + 1)[i] == x);
        assert(s.take(k + 1).contains(x));
    }
    if s[k] == x {
        assert(s.take(k + 1)[k] == x);
        assert(s.take(k + 1).contains(x));
    }
}

/// Drain the reset cursor. If any pending event is a reset action, every
/// mining-layer grid is re-baselined in place (its dimensions kept), every
/// positioned player returns to the spawn point, and `block_progress` is
/// zeroed; otherwise nothing changes. `money` and `mined` are never touched.
pub fn reset_system(
    world: &mut World,
    channel: &mut EventChannel,
    res: &ResetRes,
    progress: &mut Progress,
)
    requires
        old(world).wf(),
        old(channel).wf(),
        old(channel).spec_valid_reader(&res.reader),
        old(progress).wf(),
    ensures
        final(world).wf(),
        final(channel).wf(),
        final(channel).spec_events() == old(channel).spec_events(),
        final(channel).spec_num_readers() == old(channel).spec_num_readers(),
        final(channel).spec_cursor(res.reader.spec_id()) == old(channel).spec_events().len(),
        forall|j: int|
            0 <= j < old(channel).spec_num_readers() && j != res.reader.spec_id()
                ==> final(channel).spec_cursor(j) == old(channel).spec_cursor(j),
        final(world).spec_len() == old(world).spec_len(),
        final(world).spec_players() == old(world).spec_players(),
        final(world).spec_solids() == old(world).spec_solids(),
        final(world).spec_mining() == old(world).spec_mining(),
        final(world).spec_spawners() == old(world).spec_spawners(),
        final(world).spec_creeps() == old(world).spec_creeps(),
        final(progress).mined == old(progress).mined,
        final(progress).money == old(progress).money,
        final(progress).money_per_block == old(progress).money_per_block,
        final(progress).current_mine == old(progress).current_mine,
        final(progress).wf(),
        spec_pending(*old(channel), &res.reader).contains(Key::R) ==> {
            &&& final(progress).block_progress == 0
            &&& forall|e: int|
                0 <= e < old(world).spec_len() && old(world).spec_mining()[e] && old(
                    world,
                ).spec_maps()[e] is Some ==> {
                    let gv = #[trigger] final(world).spec_map_views()[e];
                    &&& gv is Some
                    &&& gv->0.width == old(world).spec_map_views()[e]->0.width
                    &&& gv->0.height == old(world).spec_map_views()[e]->0.height
                    &&& spec_is_baseline(gv->0)
                }
            &&& forall|e: int|
                0 <= e < old(world).spec_len() && !(old(world).spec_mining()[e] && old(
                    world,
                ).spec_maps()[e] is Some) ==> final(world).spec_maps()[e] == old(
                    world,
                ).spec_maps()[e]
            &&& forall|e: int|
                0 <= e < old(world).spec_len() ==> final(world).spec_positions()[e] == (
                if old(world).spec_players()[e] && old(world).spec_positions()[e] is Some {
                    Some(spec_spawn_point())
                } else {
                    old(world).spec_positions()[e]
                })
        },
        !spec_pending(*old(channel), &res.reader).contains(Key::R) ==> {
            &&& final(world).spec_maps() == old(world).spec_maps()
            &&& final(world).spec_positions() == old(world).spec_positions()
            &&& final(progress).block_progress == old(progress).block_progress
        },
{
    let keys = channel.read(&res.reader);
    let ghost batch = keys@;
    let n = world.len();
    let mut k: usize = 0;
    while k < keys.len()
        invariant
            world.wf(),
            progress.wf(),
            n == world.spec_len(),
            n == old(world).spec_len(),
            k <= batch.len(),
            keys@ == batch,
            world.spec_players() == old(world).spec_players(),
            world.spec_solids() == old(world).spec_solids(),
            world.spec_mining() == old(world).spec_mining(),
            world.spec_spawners() == old(world).spec_spawners(),
            world.spec_creeps() == old(world).spec_creeps(),
            progress.mined == old(progress).mined,
            progress.money == old(progress).money,
            progress.money_per_block == old(progress).money_per_block,
            progress.current_mine == old(progress).current_mine,
            batch.take(k as int).contains(Key::R) ==> {
                &&& progress.block_progress == 0
                &&& forall|e: int|
                    0 <= e < n && old(world).spec_mining()[e] && old(
                        world,
                    ).spec_maps()[e] is Some ==> {
                        let gv = #[trigger] world.spec_map_views()[e];
                        &&& gv is Some
                        &&& gv->0.width == old(world).spec_map_views()[e]->0.width
                        &&& gv->0.height == old(world).spec_map_views()[e]->0.height
                        &&& spec_is_baseline(gv->0)
                    }
                &&& forall|e: int|
                    0 <= e < n && !(old(world).spec_mining()[e] && old(
                        world,
                    ).spec_maps()[e] is Some) ==> world.spec_maps()[e] == old(
                        world,
                    ).spec_maps()[e]
                &&& forall|e: int|
                    0 <= e < n ==> world.spec_positions()[e] == (
                    if old(world).spec_players()[e] && old(world).spec_positions()[e] is Some {
                        Some(spec_spawn_point())
                    } else {
                        old(world).spec_positions()[e]
                    })
            },
            !batch.take(k as int).contains(Key::R) ==> {
                &&& world.spec_maps() == old(world).spec_maps()
                &&& world.spec_positions() == old(world).spec_positions()
                &&& progress.block_progress == old(progress).block_progress
            },
        decreases keys.len() - k,
    {
        let key = keys[k];
        match key {
            Key::R => {
                let ghost snap_maps = world.spec_maps();
                let ghost snap_views = world.spec_map_views();
                let ghost snap_pos = world.spec_positions();
                let mut e: usize = 0;
                while e < n
                    invariant
                        world.wf(),
                        n == world.spec_len(),
                        e <= n,
                        world.spec_players() == old(world).spec_players(),
                        world.spec_solids() == old(world).spec_solids(),
                        world.spec_mining() == old(world).spec_mining(),
                        world.spec_spawners() == old(world).spec_spawners(),
                        world.spec_creeps() == old(world).spec_creeps(),
                        world.spec_positions() == snap_pos,
                        snap_maps.len() == n,
                        forall|e2: int|
                            0 <= e2 < n ==> #[trigger] snap_views[e2] == (match snap_maps[e2] {
                                Some(mm) => Some(mm@),
                                None => Option::<GridView>::None,
                            }),
                        forall|e2: int|
                            0 <= e2 < n && !(old(world).spec_mining()[e2]
                                && snap_maps[e2] is Some) ==> #[trigger] world.spec_maps()[e2]
                                == snap_maps[e2],
                        forall|e2: int|
                            e <= e2 < n ==> #[trigger] world.spec_maps()[e2] == snap_maps[e2],
                        forall|e2: int|
                            0 <= e2 < e && old(world).spec_mining()[e2]
                                && snap_maps[e2] is Some ==> {
                                let gv = #[trigger] world.spec_map_views()[e2];
                                &&& gv is Some
                                &&& gv->0.width == snap_views[e2]->0.width
                                &&& gv->0.height == snap_views[e2]->0.height
                                &&& spec_is_baseline(gv->0)
                            },
                    decreases n - e,
                {
                    let ghost views_entry = world.spec_map_views();
                    let ghost maps_entry = world.spec_maps();
                    if world.has_mining_tag(e) {
                        let ghost maps_before = world.spec_maps();
                        match world.take_map(e) {
                            Some(mut m) => {
                                proof {
                                    assert(m == snap_maps[e as int]->0);
                                }
                                init_collision_map(&mut m);
                                let ghost gv_new = m@;
                                world.put_map(e, m);
                                proof {
                                    assert(world.spec_map_views()[e as int] == Some(gv_new));
                                    assert(gv_new.width == snap_views[e as int]->0.width);
                                    assert(gv_new.height == snap_views[e as int]->0.height);
                                    assert(spec_is_baseline(gv_new));
                                }
                            },
                            None => {
                                proof {
                                    assert(world.spec_maps() =~= maps_before);
                                }
                            },
                        }
                    }
                    proof {
                        assert forall|e2: int|
                            0 <= e2 < n && e2 != e implies #[trigger] world.spec_map_views()[e2]
                            == views_entry[e2] by {
                            assert(world.spec_maps()[e2] == maps_entry[e2]);
                        }
                    }
                    e = e + 1;
                }
                let mut ep: usize = 0;
                while ep < n
                    invariant
                        world.wf(),
                        n == world.spec_len(),
                        ep <= n,
                        world.spec_players() == old(world).spec_players(),
                        world.spec_solids() == old(world).spec_solids(),
                        world.spec_mining() == old(world).spec_mining(),
                        world.spec_spawners() == old(world).spec_spawners(),
                        world.spec_creeps() == old(world).spec_creeps(),
                        snap_maps.len() == n,
                        forall|e2: int|
                            0 <= e2 < n ==> #[trigger] snap_views[e2] == (match snap_maps[e2] {
                                Some(mm) => Some(mm@),
                                None => Option::<GridView>::None,
                            }),
                        snap_pos.len() == n,
                        forall|e2: int|
                            0 <= e2 < n && !(old(world).spec_mining()[e2]
                                && snap_maps[e2] is Some) ==> #[trigger] world.spec_maps()[e2]
                                == snap_maps[e2],
                        forall|e2: int|
                            0 <= e2 < n && old(world).spec_mining()[e2]
                                && snap_maps[e2] is Some ==> {
                                let gv = #[trigger] world.spec_map_views()[e2];
                                &&& gv is Some
                                &&& gv->0.width == snap_views[e2]->0.width
                                &&& gv->0.height == snap_views[e2]->0.height
                                &&& spec_is_baseline(gv->0)
                            },
                        forall|e2: int|
                            0 <= e2 < n ==> #[trigger] world.spec_positions()[e2] == (
                            if old(world).spec_players()[e2] && snap_pos[e2] is Some && e2 < ep {
                                Some(spec_spawn_point())
                            } else {
                                snap_pos[e2]
                            }),
                    decreases n - ep,
                {
                    let ghost views_entry = world.spec_map_views();
                    let ghost maps_entry = world.spec_maps();
                    if world.is_player(ep) {
                        if world.position(ep).is_some() {
                            let spawn = Point { x: (WIDTH / 2) as i32, y: 10 };
                            world.set_position(ep, spawn);
                        }
                    }
                    proof {
                        assert forall|e2: int|
                            0 <= e2 < n implies #[trigger] world.spec_map_views()[e2]
                            == views_entry[e2] by {
                            assert(world.spec_maps()[e2] == maps_entry[e2]);
                        }
                    }
                    ep = ep + 1;
                }
                progress.block_progress = 0;
                proof {
                    lemma_take_contains(batch, k as int, Key::R);
                    let prior = batch.take(k as int).contains(Key::R);
                    assert forall|e2: int|
                        0 <= e2 < n && old(world).spec_mining()[e2] && old(
                            world,
                        ).spec_maps()[e2] is Some implies {
                        let gv = #[trigger] world.spec_map_views()[e2];
                        &&& gv is Some
                        &&& gv->0.width == old(world).spec_map_views()[e2]->0.width
                        &&& gv->0.height == old(world).spec_map_views()[e2]->0.height
                        &&& spec_is_baseline(gv->0)
                    } by {
                        if prior {
                            assert(snap_views[e2] is Some);
                        }
                    }
                    assert forall|e2: int|
                        0 <= e2 < n && !(old(world).spec_mining()[e2] && old(
                            world,
                        ).spec_maps()[e2] is Some) implies world.spec_maps()[e2] == old(
                        world,
                    ).spec_maps()[e2] by {
                        if prior {
                            assert(snap_maps[e2] == old(world).spec_maps()[e2]);
                        }
                    }
                    assert forall|e2: int| 0 <= e2 < n implies world.spec_positions()[e2] == (
                    if old(world).spec_players()[e2] && old(
                        world,
                    ).spec_positions()[e2] is Some {
                        Some(spec_spawn_point())
                    } else {
                        old(world).spec_positions()[e2]
                    }) by {
                        if prior {
                            assert(snap_pos[e2] == (if old(world).spec_players()[e2] && old(
                                world,
                            ).spec_positions()[e2] is Some {
                                Some(spec_spawn_point())
                            } else {
                                old(world).spec_positions()[e2]
                            }));
                        }
                    }
                }
            },
            _ => {
                proof {
                    lemma_take_contains(batch, k as int, Key::R);
                }
            },
        }
        k = k + 1;
    }
    proof {
        assert(batch.take(batch.len() as int) =~= batch);
        assert(batch =~= spec_pending(*old(channel), &res.reader));
    }
}

} // verus!
