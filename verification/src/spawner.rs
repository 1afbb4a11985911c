//! The creep spawner system.
//!
//! Each tick, every entity with a countdown and a position ticks its counter
//! down; a counter at zero records a pending spawn at that position and
//! starts over at the full period. After the read pass, one new creep entity
//! is materialized per pending spawn — deferred so the store is never grown
//! while it is being iterated.

use vstd::prelude::*;
use crate::geom::Point;
use crate::world::{spec_coord_ok, World};

verus! {

/// Ticks between two spawns of one spawner.
pub const SPAWN_PERIOD: u32 = 20;

/// Does a spawner with this counter fire on the tick that processes it?
pub open spec fn spec_spawns(c: u32) -> bool {
    c == 0
}

/// The counter after one tick: a firing counter starts over at the full
/// period, any other ticks down by one.
pub open spec fn spec_spawner_step(c: u32) -> u32 {
    if c == 0 {
        SPAWN_PERIOD
    } else {
        (c - 1) as u32
    }
}

/// The counter after `t` ticks.
pub open spec fn spec_countdown_after(c: u32, t: nat) -> u32
    decreases t,
{
    if t == 0 {
        c
    } else {
        spec_spawner_step(spec_countdown_after(c, (t - 1) as nat))
    }
}

/// A freshly reset counter ticks down one per tick.
pub proof fn lemma_spawner_countdown(t: nat)
    requires
        t <= SPAWN_PERIOD,
    ensures
        spec_countdown_after(SPAWN_PERIOD, t) == SPAWN_PERIOD - t,
    decreases t,
{
    if t > 0 {
        lemma_spawner_countdown((t - 1) as nat);
    }
}

/// Law: after a spawn resets the counter to the full period, the spawner
/// fires nothing during the following `SPAWN_PERIOD` ticks, and fires again
/// on the tick after they have elapsed.
pub proof fn lemma_spawner_period(t: nat)
    requires
        1 <= t <= SPAWN_PERIOD,
    ensures
        !spec_spawns(spec_countdown_after(SPAWN_PERIOD, (t - 1) as nat)),
        spec_spawns(spec_countdown_after(SPAWN_PERIOD, SPAWN_PERIOD as nat)),
{
    lemma_spawner_countdown((t - 1) as nat);
    lemma_spawner_countdown(SPAWN_PERIOD as nat);
}

/// World positions of the spawns this tick fires, in entity order, over the
/// entities from index `k` up.
pub open spec fn spec_pending_spawns_from(
    spawners: Seq<Option<u32>>,
    positions: Seq<Option<Point>>,
    k: int,
) -> Seq<Point>
    decreases spawners.len() - k,
{
    if k < 0 || k >= spawners.len() {
        Seq::empty()
    } else if spawners[k] is Some && positions[k] is Some && spec_spawns(spawners[k]->0) {
        seq![positions[k]->0] + spec_pending_spawns_from(spawners, positions, k + 1)
    } else {
        spec_pending_spawns_from(spawners, positions, k + 1)
    }
}

/// World positions of the spawns this tick fires, in entity order.
pub open spec fn spec_pending_spawns(
    spawners: Seq<Option<u32>>,
    positions: Seq<Option<Point>>,
) -> Seq<Point> {
    spec_pending_spawns_from(spawners, positions, 0)
}

/// Run one spawner tick. Every entity with a countdown and a position ticks
/// its counter (a firing counter starts over at the full period); then one
/// new entity is appended per firing spawner, in entity order, carrying that
/// spawner's position and the creep tag and nothing else. Existing entities
/// keep every other component.
pub fn creep_spawner_system(world: &mut World)
    requires
        old(world).wf(),
    ensures
        final(world).wf(),
        final(world).spec_len() == old(world).spec_len() + spec_pending_spawns(
            old(world).spec_spawners(),
            old(world).spec_positions(),
        ).len(),
        forall|e: int|
            0 <= e < old(world).spec_len() ==> {
                &&& final(world).spec_positions()[e] == old(world).spec_positions()[e]
                &&& final(world).spec_players()[e] == old(world).spec_players()[e]
                &&& final(world).spec_solids()[e] == old(world).spec_solids()[e]
                &&& final(world).spec_maps()[e] == old(world).spec_maps()[e]
                &&& final(world).spec_mining()[e] == old(world).spec_mining()[e]
                &&& final(world).spec_creeps()[e] == old(world).spec_creeps()[e]
            },
        forall|e: int|
            0 <= e < old(world).spec_len() ==> final(world).spec_spawners()[e] == (
            if old(world).spec_spawners()[e] is Some && old(world).spec_positions()[e] is Some {
                Some(spec_spawner_step(old(world).spec_spawners()[e]->0))
            } else {
                old(world).spec_spawners()[e]
            }),
        forall|e: int|
            old(world).spec_len() <= e < final(world).spec_len() ==> {
                &&& #[trigger] final(world).spec_positions()[e] == Some(
                    spec_pending_spawns(
                        old(world).spec_spawners(),
                        old(world).spec_positions(),
                    )[e - old(world).spec_len()],
                )
                &&& final(world).spec_creeps()[e]
                &&& !final(world).spec_players()[e]
                &&& !final(world).spec_solids()[e]
                &&& final(world).spec_maps()[e] is None
                &&& !final(world).spec_mining()[e]
                &&& final(world).spec_spawners()[e] is None
            },
{
    let ghost spawners0 = old(world).spec_spawners();
    let ghost positions0 = old(world).spec_positions();
    let ghost total = spec_pending_spawns(spawners0, positions0);
    let n = world.len();
    let mut pending: Vec<Point> = Vec::new();
    let mut e: usize = 0;
    while e < n
        invariant
            world.wf(),
            n == world.spec_len(),
            n == old(world).spec_len(),
            e <= n,
            spawners0.len() == n,
            world.spec_positions() == positions0,
            world.spec_players() == old(world).spec_players(),
            world.spec_solids() == old(world).spec_solids(),
            world.spec_maps() == old(world).spec_maps(),
            world.spec_mining() == old(world).spec_mining(),
            world.spec_creeps() == old(world).spec_creeps(),
            forall|e2: int|
                e <= e2 < n ==> #[trigger] world.spec_spawners()[e2] == spawners0[e2],
            forall|e2: int|
                0 <= e2 < e ==> #[trigger] world.spec_spawners()[e2] == (
                if spawners0[e2] is Some && positions0[e2] is Some {
                    Some(spec_spawner_step(spawners0[e2]->0))
                } else {
                    spawners0[e2]
                }),
            forall|j: int| 0 <= j < pending@.len() ==> spec_coord_ok(#[trigger] pending@[j]),
            pending@ + spec_pending_spawns_from(spawners0, positions0, e as int) == total,
        decreases n - e,
    {
        match world.spawner_countdown(e) {
            Some(c) => {
                match world.position(e) {
                    Some(p) => {
                        if c == 0 {
                            pending.push(p);
                            world.add_spawner(e, SPAWN_PERIOD);
                            proof {
                                assert(pending@ + spec_pending_spawns_from(
                                    spawners0,
                                    positions0,
                                    e as int + 1,
                                ) =~= (pending@.drop_last() + seq![p]) + spec_pending_spawns_from(
                                    spawners0,
                                    positions0,
                                    e as int + 1,
                                ));
                                assert((pending@.drop_last() + seq![p])
                                    + spec_pending_spawns_from(spawners0, positions0, e as int + 1)
                                    =~= pending@.drop_last() + (seq![p]
                                    + spec_pending_spawns_from(
                                    spawners0,
                                    positions0,
                                    e as int + 1,
                                )));
                            }
                        } else {
                            world.add_spawner(e, c - 1);
                        }
                    },
                    None => {},
                }
            },
            None => {},
        }
        e = e + 1;
    }
    let ghost spawners1 = world.spec_spawners();
    proof {
        assert forall|e2: int| 0 <= e2 < n implies #[trigger] spawners1[e2] == (
        if spawners0[e2] is Some && positions0[e2] is Some {
            Some(spec_spawner_step(spawners0[e2]->0))
        } else {
            spawners0[e2]
        }) by {
            assert(world.spec_spawners()[e2] == spawners1[e2]);
        }
    }
    let m = pending.len();
    let mut i: usize = 0;
    while i < m
        invariant
            world.wf(),
            n == old(world).spec_len(),
            m == total.len(),
            i <= m,
            pending@ == total,
            world.spec_len() == n + i,
            forall|j: int| 0 <= j < m ==> spec_coord_ok(#[trigger] pending@[j]),
            forall|e2: int|
                0 <= e2 < n ==> {
                    &&& #[trigger] world.spec_positions()[e2] == positions0[e2]
                    &&& world.spec_players()[e2] == old(world).spec_players()[e2]
                    &&& world.spec_solids()[e2] == old(world).spec_solids()[e2]
                    &&& world.spec_maps()[e2] == old(world).spec_maps()[e2]
                    &&& world.spec_mining()[e2] == old(world).spec_mining()[e2]
                    &&& world.spec_creeps()[e2] == old(world).spec_creeps()[e2]
                    &&& world.spec_spawners()[e2] == spawners1[e2]
                },
            forall|e2: int|
                n <= e2 < n + i ==> {
                    &&& #[trigger] world.spec_positions()[e2] == Some(total[e2 - n])
                    &&& world.spec_creeps()[e2]
                    &&& !world.spec_players()[e2]
                    &&& !world.spec_solids()[e2]
                    &&& world.spec_maps()[e2] is None
                    &&& !world.spec_mining()[e2]
                    &&& world.spec_spawners()[e2] is None
                },
        decreases m - i,
    {
        let p = pending[i];
        let enew = world.create_entity();
        world.set_position(enew, p);
        world.add_creep(enew);
        i = i + 1;
    }
    proof {
        assert forall|e2: int| 0 <= e2 < n implies world.spec_spawners()[e2] == (
        if spawners0[e2] is Some && positions0[e2] is Some {
            Some(spec_spawner_step(spawners0[e2]->0))
        } else {
            spawners0[e2]
        }) by {
            assert(world.spec_positions()[e2] == positions0[e2]);
            assert(world.spec_spawners()[e2] == spawners1[e2]);
        }
    }
}

} // verus!
