//! The mining system.
//!
//! On each mine-action event, every player channels one hit into the tile
//! immediately south of it in every mining-layer grid that contains the
//! player. A hit on an occupied tile raises `block_progress`; once it passes
//! the threshold the ledger records one mined block and its reward, the
//! progress returns to zero and the tile is cleared.

use vstd::prelude::*;
use crate::channel::{spec_pending, EventChannel, Key, ReaderId};
use crate::components::Progress;
use crate::geom::{position_inside_rect, spec_inside_rect, Point};
use crate::grid::{CollisionMap, GridView};
use crate::world::{spec_coord_ok, World};

verus! {

/// Mine events needed on one tile before it breaks: the event that pushes
/// `block_progress` past this value completes the block.
pub const MINE_THRESHOLD: u32 = 5;

/// Money earned for each completed block.
pub const MINE_REWARD: u32 = 5;

/// The mining system's private read cursor into the event channel.
pub struct MineRes {
    pub reader: ReaderId,
}

impl MineRes {
    pub fn new(reader: ReaderId) -> (r: MineRes)
        ensures
            r.reader == reader,
    {
        MineRes { reader }
    }
}

/// Does a mine hit by a player at `ppos` land on grid `g` anchored at `mpos`?
/// The player must stand inside the grid's bounds, and the tile immediately
/// south of the player must exist and be occupied.
pub open spec fn spec_mine_applies(ppos: Point, mpos: Point, g: GridView) -> bool {
    &&& spec_inside_rect(ppos.x as int, ppos.y as int, mpos.x as int, mpos.y as int, g.width, g.height)
    &&& ppos.y + 1 - mpos.y < g.height
    &&& g.is_set(ppos.x - mpos.x, ppos.y + 1 - mpos.y)
}

/// The grid after one mine hit: the target tile is cleared exactly when the
/// hit lands and pushes the progress past the threshold.
pub open spec fn spec_mine_attempt_grid(ppos: Point, mpos: Point, g: GridView, prog: Progress) -> GridView {
    if spec_mine_applies(ppos, mpos, g) && prog.block_progress + 1 > MINE_THRESHOLD {
        g.set_cell(ppos.x - mpos.x, ppos.y + 1 - mpos.y, false)
    } else {
        g
    }
}

/// The ledger after one mine hit: a landing hit raises `block_progress`;
/// past the threshold it instead returns to zero while `mined` gains one
/// block and `money` gains the reward.
pub open spec fn spec_mine_attempt_progress(
    ppos: Point,
    mpos: Point,
    g: GridView,
    prog: Progress,
) -> Progress {
    if spec_mine_applies(ppos, mpos, g) {
        if prog.block_progress + 1 > MINE_THRESHOLD {
            Progress {
                current_mine: prog.current_mine,
                block_progress: 0,
                money_per_block: MINE_REWARD,
                mined: (prog.mined + 1) as u64,
                money: (prog.money + MINE_REWARD) as u64,
            }
        } else {
            Progress { block_progress: (prog.block_progress + 1) as u32, ..prog }
        }
    } else {
        prog
    }
}

/// One player at `ppos` sweeping the mining-layer entities from index `k`
/// up, in entity order, threading the ledger through each hit.
pub open spec fn spec_mine_maps_from(
    ppos: Point,
    positions: Seq<Option<Point>>,
    tags: Seq<bool>,
    maps: Seq<Option<GridView>>,
    k: int,
    prog: Progress,
) -> (Seq<Option<GridView>>, Progress)
    decreases maps.len() - k,
{
    if k < 0 || k >= maps.len() {
        (maps, prog)
    } else if tags[k] && positions[k] is Some && maps[k] is Some {
        let g2 = spec_mine_attempt_grid(ppos, positions[k]->0, maps[k]->0, prog);
        let p2 = spec_mine_attempt_progress(ppos, positions[k]->0, maps[k]->0, prog);
        spec_mine_maps_from(ppos, positions, tags, maps.update(k, Some(g2)), k + 1, p2)
    } else {
        spec_mine_maps_from(ppos, positions, tags, maps, k + 1, prog)
    }
}

/// Every player from index `k` up, in entity order, each sweeping every
/// mining-layer entity.
pub open spec fn spec_mine_players_from(
    positions: Seq<Option<Point>>,
    players: Seq<bool>,
    tags: Seq<bool>,
    maps: Seq<Option<GridView>>,
    k: int,
    prog: Progress,
) -> (Seq<Option<GridView>>, Progress)
    decreases positions.len() - k,
{
    if k < 0 || k >= positions.len() {
        (maps, prog)
    } else if players[k] && positions[k] is Some {
        let r = spec_mine_maps_from(positions[k]->0, positions, tags, maps, 0, prog);
        spec_mine_players_from(positions, players, tags, r.0, k + 1, r.1)
    } else {
        spec_mine_players_from(positions, players, tags, maps, k + 1, prog)
    }
}

/// The effect of one mine-action event on the mining layers and the ledger.
pub open spec fn spec_mine_event(
    positions: Seq<Option<Point>>,
    players: Seq<bool>,
    tags: Seq<bool>,
    maps: Seq<Option<GridView>>,
    prog: Progress,
) -> (Seq<Option<GridView>>, Progress) {
    spec_mine_players_from(positions, players, tags, maps, 0, prog)
}

/// The effect of a whole batch of keys: each mine-action key applies one
/// event, in arrival order; every other key is a no-op.
pub open spec fn spec_mine_batch(
    keys: Seq<Key>,
    positions: Seq<Option<Point>>,
    players: Seq<bool>,
    tags: Seq<bool>,
    maps: Seq<Option<GridView>>,
    prog: Progress,
) -> (Seq<Option<GridView>>, Progress)
    decreases keys.len(),
{
    if keys.len() == 0 {
        (maps, prog)
    } else if keys[0] == Key::P {
        let r = spec_mine_event(positions, players, tags, maps, prog);
        spec_mine_batch(keys.drop_first(), positions, players, tags, r.0, r.1)
    } else {
        spec_mine_batch(keys.drop_first(), positions, players, tags, maps, prog)
    }
}

/// What the mining system leaves behind: the mining layers and the ledger
/// after every pending event of the given reader has been applied.
pub open spec fn spec_mine_system_result(
    w: World,
    c: EventChannel,
    r: &ReaderId,
    prog: Progress,
) -> (Seq<Option<GridView>>, Progress) {
    spec_mine_batch(
        spec_pending(c, r),
        w.spec_positions(),
        w.spec_players(),
        w.spec_mining(),
        w.spec_map_views(),
        prog,
    )
}

/// One channelled hit by the player at `ppos` against the grid `g` anchored
/// at `mpos`, exactly as the mining system performs it.
pub fn mine_attempt(ppos: Point, mpos: Point, g: &mut CollisionMap, progress: &mut Progress)
    requires
        old(g).wf(),
        old(g)@.width <= 0x8000,
        old(g)@.height <= 0x8000,
        spec_coord_ok(ppos),
        spec_coord_ok(mpos),
        old(progress).wf(),
        old(progress).mined < u64::MAX,
        old(progress).money + MINE_REWARD <= u64::MAX,
    ensures
        final(g).wf(),
        final(g)@ == spec_mine_attempt_grid(ppos, mpos, old(g)@, *old(progress)),
        *final(progress) == spec_mine_attempt_progress(ppos, mpos, old(g)@, *old(progress)),
        final(progress).wf(),
        final(progress).mined <= old(progress).mined + 1,
        final(progress).money <= old(progress).money + MINE_REWARD,
        final(progress).mined >= old(progress).mined,
        final(progress).money >= old(progress).money,
{
    let (w, h) = g.size();
    if position_inside_rect(ppos.x, ppos.y, mpos.x, mpos.y, w, h) {
        let rel_x = (ppos.x - mpos.x) as u32;
        let rel_y = (ppos.y + 1 - mpos.y) as u32;
        if rel_y < h && g.is_set(rel_x, rel_y) {
            progress.block_progress = progress.block_progress + 1;
            if progress.block_progress > MINE_THRESHOLD {
                progress.money_per_block = MINE_REWARD;
                progress.block_progress = 0;
                progress.mined = progress.mined + 1;
                progress.money = progress.money + progress.money_per_block as u64;
                g.unset(rel_x, rel_y);
            }
        }
    }
}

/// Drain the mining cursor and apply every buffered mine-action event: for
/// each, every player channels one hit into every mining-layer grid that
/// contains it. The mining layers and the ledger end up exactly at the
/// event-fold of the pending batch; positions, tags and every other reader's
/// cursor are untouched.
pub fn mine_system(
    world: &mut World,
    channel: &mut EventChannel,
    res: &MineRes,
    progress: &mut Progress,
)
    requires
        old(world).wf(),
        old(channel).wf(),
        old(channel).spec_valid_reader(&res.reader),
        old(progress).wf(),
        old(progress).mined + spec_pending(*old(channel), &res.reader).len() * old(
            world,
        ).spec_len() * old(world).spec_len() <= u64::MAX,
        old(progress).money + (MINE_REWARD as int) * spec_pending(*old(channel), &res.reader).len()
            * old(world).spec_len() * old(world).spec_len() <= u64::MAX,
    ensures
        final(world).wf(),
        final(channel).wf(),
        final(channel).spec_events() == old(channel).spec_events(),
        final(channel).spec_num_readers() == old(channel).spec_num_readers(),
        final(channel).spec_cursor(res.reader.spec_id()) == old(channel).spec_events().len(),
        forall|j: int|
            0 <= j < old(channel).spec_num_readers() && j != res.reader.spec_id()
                ==> final(channel).spec_cursor(j) == old(channel).spec_cursor(j),
        final(world).spec_len() == old(world).spec_len(),
        final(world).spec_positions() == old(world).spec_positions(),
        final(world).spec_players() == old(world).spec_players(),
        final(world).spec_solids() == old(world).spec_solids(),
        final(world).spec_mining() == old(world).spec_mining(),
        final(world).spec_spawners() == old(world).spec_spawners(),
        final(world).spec_creeps() == old(world).spec_creeps(),
        final(world).spec_map_views() == spec_mine_system_result(
            *old(world),
            *old(channel),
            &res.reader,
            *old(progress),
        ).0,
        *final(progress) == spec_mine_system_result(
            *old(world),
            *old(channel),
            &res.reader,
            *old(progress),
        ).1,
        final(progress).wf(),
{
    let keys = channel.read(&res.reader);
    let ghost batch = keys@;
    let ghost positions0 = old(world).spec_positions();
    let ghost players0 = old(world).spec_players();
    let ghost tags0 = old(world).spec_mining();
    let ghost total = spec_mine_batch(
        batch,
        positions0,
        players0,
        tags0,
        old(world).spec_map_views(),
        *old(progress),
    );
    proof {
        assert(batch.skip(0) =~= batch);
    }
    let n = world.len();
    let mut k: usize = 0;
    while k < keys.len()
        invariant
            world.wf(),
            progress.wf(),
            n == world.spec_len(),
            k <= batch.len(),
            keys@ == batch,
            world.spec_positions() == positions0,
            world.spec_players() == players0,
            world.spec_mining() == tags0,
            world.spec_solids() == old(world).spec_solids(),
            world.spec_spawners() == old(world).spec_spawners(),
            world.spec_creeps() == old(world).spec_creeps(),
            progress.mined + (batch.len() - k) * n * n <= u64::MAX,
            progress.money + (MINE_REWARD as int) * (batch.len() - k) * n * n <= u64::MAX,
            spec_mine_batch(
                batch.skip(k as int),
                positions0,
                players0,
                tags0,
                world.spec_map_views(),
                *progress,
            ) == total,
        decreases keys.len() - k,
    {
        let key = keys[k];
        proof {
            let ks = batch.skip(k as int);
            assert(ks[0] == batch[k as int]);
            assert(ks.drop_first() =~= batch.skip(k as int + 1));
        }
        proof {
            assert((batch.len() - k) * n * n == (batch.len() - k - 1) * n * n + n * n)
                by (nonlinear_arith);
            assert((MINE_REWARD as int) * (batch.len() - k) * n * n == (MINE_REWARD as int) * (
            batch.len() - k - 1) * n * n + (MINE_REWARD as int) * n * n) by (nonlinear_arith);
            assert(n * n >= 0) by (nonlinear_arith);
            assert((MINE_REWARD as int) * n * n >= 0) by (nonlinear_arith);
        }
        match key {
            Key::P => {
                let mut ep: usize = 0;
                while ep < n
                    invariant
                        world.wf(),
                        progress.wf(),
                        n == world.spec_len(),
                        k < batch.len(),
                        ep <= n,
                        world.spec_positions() == positions0,
                        world.spec_players() == players0,
                        world.spec_mining() == tags0,
                        world.spec_solids() == old(world).spec_solids(),
                        world.spec_spawners() == old(world).spec_spawners(),
                        world.spec_creeps() == old(world).spec_creeps(),
                        progress.mined + (batch.len() - k - 1) * n * n + (n - ep) * n <= u64::MAX,
                        progress.money + (MINE_REWARD as int) * (batch.len() - k - 1) * n * n + (
                        MINE_REWARD as int) * (n - ep) * n <= u64::MAX,
                        spec_mine_batch(
                            batch.skip(k as int + 1),
                            positions0,
                            players0,
                            tags0,
                            spec_mine_players_from(
                                positions0,
                                players0,
                                tags0,
                                world.spec_map_views(),
                                ep as int,
                                *progress,
                            ).0,
                            spec_mine_players_from(
                                positions0,
                                players0,
                                tags0,
                                world.spec_map_views(),
                                ep as int,
                                *progress,
                            ).1,
                        ) == total,
                    decreases n - ep,
                {
                    proof {
                        assert((n - ep) * n == (n - ep - 1) * n + n) by (nonlinear_arith);
                        assert((MINE_REWARD as int) * (n - ep) * n == (MINE_REWARD as int) * (n
                            - ep - 1) * n + (MINE_REWARD as int) * n) by (nonlinear_arith);
                    }
                    if world.is_player(ep) {
                        if let Some(ppos) = world.position(ep) {
                            let mut em: usize = 0;
                            while em < n
                                invariant
                                    world.wf(),
                                    progress.wf(),
                                    n == world.spec_len(),
                                    k < batch.len(),
                                    ep < n,
                                    em <= n,
                                    world.spec_positions() == positions0,
                                    world.spec_players() == players0,
                                    world.spec_mining() == tags0,
                                    world.spec_solids() == old(world).spec_solids(),
                                    world.spec_spawners() == old(world).spec_spawners(),
                                    world.spec_creeps() == old(world).spec_creeps(),
                                    players0[ep as int],
                                    positions0[ep as int] == Some(ppos),
                                    spec_coord_ok(ppos),
                                    progress.mined + (batch.len() - k - 1) * n * n + (n - ep - 1)
                                        * n + (n - em) <= u64::MAX,
                                    progress.money + (MINE_REWARD as int) * (batch.len() - k - 1)
                                        * n * n + (MINE_REWARD as int) * (n - ep - 1) * n + (
                                    MINE_REWARD as int) * (n - em) <= u64::MAX,
                                    spec_mine_batch(
                                        batch.skip(k as int + 1),
                                        positions0,
                                        players0,
                                        tags0,
                                        spec_mine_players_from(
                                            positions0,
                                            players0,
                                            tags0,
                                            spec_mine_maps_from(
                                                ppos,
                                                positions0,
                                                tags0,
                                                world.spec_map_views(),
                                                em as int,
                                                *progress,
                                            ).0,
                                            ep as int + 1,
                                            spec_mine_maps_from(
                                                ppos,
                                                positions0,
                                                tags0,
                                                world.spec_map_views(),
                                                em as int,
                                                *progress,
                                            ).1,
                                        ).0,
                                        spec_mine_players_from(
                                            positions0,
                                            players0,
                                            tags0,
                                            spec_mine_maps_from(
                                                ppos,
                                                positions0,
                                                tags0,
                                                world.spec_map_views(),
                                                em as int,
                                                *progress,
                                            ).0,
                                            ep as int + 1,
                                            spec_mine_maps_from(
                                                ppos,
                                                positions0,
                                                tags0,
                                                world.spec_map_views(),
                                                em as int,
                                                *progress,
                                            ).1,
                                        ).1,
                                    ) == total,
                                decreases n - em,
                            {
                                let ghost views_before = world.spec_map_views();
                                let ghost maps_before = world.spec_maps();
                                let ghost prog_before = *progress;
                                let tagged = world.has_mining_tag(em);
                                let mpos_opt = world.position(em);
                                if tagged && mpos_opt.is_some() {
                                    let mpos = match mpos_opt {
                                        Some(q) => q,
                                        None => ppos,
                                    };
                                    match world.take_map(em) {
                                        Some(mut gmap) => {
                                            mine_attempt(ppos, mpos, &mut gmap, progress);
                                            world.put_map(em, gmap);
                                            proof {
                                                assert(world.spec_map_views() =~= views_before
                                                    .update(
                                                    em as int,
                                                    Some(
                                                        spec_mine_attempt_grid(
                                                            ppos,
                                                            mpos,
                                                            views_before[em as int]->0,
                                                            prog_before,
                                                        ),
                                                    ),
                                                ));
                                            }
                                        },
                                        None => {
                                            proof {
                                                assert(world.spec_maps() =~= maps_before);
                                                assert(world.spec_map_views() =~= views_before);
                                            }
                                        },
                                    }
                                }
                                em = em + 1;
                            }
                            ep = ep + 1;
                        } else {
                            ep = ep + 1;
                        }
                    } else {
                        ep = ep + 1;
                    }
                }
            },
            _ => {},
        }
        k = k + 1;
    }
    proof {
        assert(batch.skip(batch.len() as int) =~= Seq::<Key>::empty());
    }
}

} // verus!
