//! Scenario tests for the five gameplay systems.

use world_digger::aggregate::combine_collision_system;
use world_digger::channel::{EventChannel, Key};
use world_digger::components::Progress;
use world_digger::geom::{Direction, Point};
use world_digger::grid::CollisionMap;
use world_digger::mining::{mine_system, MineRes};
use world_digger::movement::{player_movement_system, try_move, PlayerMovementRes};
use world_digger::reset::{init_collision_map, reset_system, ResetRes};
use world_digger::resource::CollisionResource;
use world_digger::spawner::creep_spawner_system;
use world_digger::world::World;
use world_digger::{HEIGHT, WIDTH};

fn empty_resource(w: u32, h: u32) -> CollisionResource {
    CollisionResource::new(CollisionMap::new(w, h), Point::new(0, 0))
}

#[test]
fn aggregation_sets_the_bit_under_a_visible_solid_entity() {
    let mut world = World::new();
    let e = world.create_entity();
    world.set_position(e, Point::new(2, 3));
    world.add_collision(e);
    let mut res = empty_resource(10, 10);
    combine_collision_system(&world, &mut res);
    assert!(res.map.is_set(2, 3));
    assert!(!res.map.is_set(3, 2));
    // Moving the entity outside the viewport and re-aggregating clears it.
    world.set_position(e, Point::new(50, 50));
    combine_collision_system(&world, &mut res);
    assert!(!res.map.is_set(2, 3));
}

#[test]
fn aggregation_translates_multi_tile_geometry() {
    let mut world = World::new();
    let e = world.create_entity();
    world.set_position(e, Point::new(4, 4));
    let mut grid = CollisionMap::new(3, 2);
    grid.set(0, 0);
    grid.set(2, 1);
    world.add_collision_map(e, grid);
    let mut res = empty_resource(10, 10);
    combine_collision_system(&world, &mut res);
    assert!(res.map.is_set(4, 4));
    assert!(res.map.is_set(6, 5));
    assert!(!res.map.is_set(5, 4));
    // A stale bit from a previous tick does not survive the rebuild.
    res.map.set(0, 0);
    combine_collision_system(&world, &mut res);
    assert!(!res.map.is_set(0, 0));
}

#[test]
fn west_move_at_the_near_edge_is_clamped() {
    let res = empty_resource(10, 10);
    let mut p = Point::new(0, 5);
    try_move(&mut p, &res, Direction::West);
    assert_eq!(p, Point::new(0, 5));
}

#[test]
fn move_into_an_occupied_tile_is_rejected() {
    let mut res = empty_resource(10, 10);
    res.map.set(6, 5);
    let mut p = Point::new(5, 5);
    try_move(&mut p, &res, Direction::East);
    assert_eq!(p, Point::new(5, 5));
}

#[test]
fn unobstructed_moves_shift_by_exactly_one_tile() {
    let res = empty_resource(10, 10);
    let mut p = Point::new(5, 5);
    try_move(&mut p, &res, Direction::East);
    assert_eq!(p, Point::new(6, 5));
    try_move(&mut p, &res, Direction::North);
    assert_eq!(p, Point::new(6, 4));
    try_move(&mut p, &res, Direction::South);
    assert_eq!(p, Point::new(6, 5));
    try_move(&mut p, &res, Direction::West);
    assert_eq!(p, Point::new(5, 5));
}

#[test]
fn movement_system_applies_buffered_keys_in_order() {
    let mut world = World::new();
    let e = world.create_entity();
    world.set_position(e, Point::new(5, 5));
    world.add_player(e);
    let res = empty_resource(10, 10);
    let mut channel = EventChannel::new();
    let movement = PlayerMovementRes::new(channel.register_reader());
    channel.single_write(Key::L);
    channel.single_write(Key::L);
    channel.single_write(Key::J);
    channel.single_write(Key::P);
    player_movement_system(&mut world, &res, &mut channel, &movement);
    assert_eq!(world.position(e), Some(Point::new(7, 6)));
    // The batch is drained: running again moves nothing.
    player_movement_system(&mut world, &res, &mut channel, &movement);
    assert_eq!(world.position(e), Some(Point::new(7, 6)));
}

/// A world with one player above an occupied tile of one tagged terrain
/// grid, as the mining scenarios need it.
fn mining_world() -> (World, usize, usize) {
    let mut world = World::new();
    let player = world.create_entity();
    world.set_position(player, Point::new(5, 10));
    world.add_player(player);
    let terrain = world.create_entity();
    world.set_position(terrain, Point::new(0, 0));
    let mut grid = CollisionMap::new(20, 20);
    grid.set(5, 11);
    world.add_collision_map(terrain, grid);
    world.add_mining_tag(terrain);
    (world, player, terrain)
}

#[test]
fn six_mine_events_break_exactly_one_tile() {
    let (mut world, _player, terrain) = mining_world();
    let mut channel = EventChannel::new();
    let mine = MineRes::new(channel.register_reader());
    let mut progress = Progress::default();
    for _ in 0..5 {
        channel.single_write(Key::P);
    }
    mine_system(&mut world, &mut channel, &mine, &mut progress);
    // Five hits accumulate but do not yet cross the threshold.
    assert_eq!(progress.block_progress, 5);
    assert_eq!(progress.mined, 0);
    assert_eq!(progress.money, 0);
    assert!(world.map_is_set(terrain, 5, 11));
    // The sixth event crosses the threshold and completes the block.
    channel.single_write(Key::P);
    mine_system(&mut world, &mut channel, &mine, &mut progress);
    assert_eq!(progress.block_progress, 0);
    assert_eq!(progress.mined, 1);
    assert_eq!(progress.money, 5);
    assert_eq!(progress.money_per_block, 5);
    assert!(!world.map_is_set(terrain, 5, 11));
}

#[test]
fn mine_events_away_from_terrain_do_nothing() {
    let (mut world, player, terrain) = mining_world();
    // Stand the player outside the terrain grid.
    world.set_position(player, Point::new(30, 30));
    let mut channel = EventChannel::new();
    let mine = MineRes::new(channel.register_reader());
    let mut progress = Progress::default();
    channel.single_write(Key::P);
    mine_system(&mut world, &mut channel, &mine, &mut progress);
    assert_eq!(progress.block_progress, 0);
    assert!(world.map_is_set(terrain, 5, 11));
}

#[test]
fn reset_restores_terrain_player_and_progress_but_not_the_counters() {
    let mut world = World::new();
    let player = world.create_entity();
    world.set_position(player, Point::new(37, 42));
    world.add_player(player);
    let terrain = world.create_entity();
    world.set_position(terrain, Point::new(0, 0));
    let mut grid = CollisionMap::new(WIDTH, HEIGHT);
    init_collision_map(&mut grid);
    grid.unset(10, 25);
    grid.set(3, 4);
    world.add_collision_map(terrain, grid);
    world.add_mining_tag(terrain);
    let mut progress = Progress::new(0, 3, 5, 7, 35);
    let mut channel = EventChannel::new();
    let reset = ResetRes::new(channel.register_reader());
    channel.single_write(Key::R);
    reset_system(&mut world, &mut channel, &reset, &mut progress);
    assert_eq!(world.position(player), Some(Point::new((WIDTH / 2) as i32, 10)));
    assert_eq!(progress.block_progress, 0);
    assert_eq!(progress.mined, 7);
    assert_eq!(progress.money, 35);
    // The terrain is back at its baseline: open above row 20, solid below.
    assert!(world.map_is_set(terrain, 10, 25));
    assert!(!world.map_is_set(terrain, 3, 4));
    assert!(!world.map_is_set(terrain, 0, 19));
    assert!(world.map_is_set(terrain, 0, 20));
    assert!(world.map_is_set(terrain, (WIDTH - 1), (HEIGHT - 1)));
}

#[test]
fn non_reset_keys_change_nothing() {
    let (mut world, player, terrain) = mining_world();
    let mut progress = Progress::new(0, 2, 0, 0, 0);
    let mut channel = EventChannel::new();
    let reset = ResetRes::new(channel.register_reader());
    channel.single_write(Key::H);
    channel.single_write(Key::P);
    reset_system(&mut world, &mut channel, &reset, &mut progress);
    assert_eq!(world.position(player), Some(Point::new(5, 10)));
    assert_eq!(progress.block_progress, 2);
    assert!(world.map_is_set(terrain, 5, 11));
}

#[test]
fn spawner_fires_once_then_waits_a_full_period() {
    let mut world = World::new();
    let s = world.create_entity();
    world.set_position(s, Point::new(55, 10));
    world.add_spawner(s, 0);
    creep_spawner_system(&mut world);
    // Exactly one new entity, at the spawner's position, tagged as a creep.
    assert_eq!(world.len(), 2);
    assert_eq!(world.position(1), Some(Point::new(55, 10)));
    assert!(world.is_creep(1));
    assert!(!world.is_player(1));
    assert_eq!(world.spawner_countdown(s), Some(20));
    // Twenty further ticks only count down; nothing spawns.
    for expected in (0..20).rev() {
        creep_spawner_system(&mut world);
        assert_eq!(world.len(), 2);
        assert_eq!(world.spawner_countdown(s), Some(expected));
    }
    // The tick after the full period fires again.
    creep_spawner_system(&mut world);
    assert_eq!(world.len(), 3);
    assert_eq!(world.spawner_countdown(s), Some(20));
    assert!(world.is_creep(2));
}

#[test]
fn spawner_without_a_position_stays_idle() {
    let mut world = World::new();
    let s = world.create_entity();
    world.add_spawner(s, 0);
    creep_spawner_system(&mut world);
    assert_eq!(world.len(), 1);
    assert_eq!(world.spawner_countdown(s), Some(0));
}

#[test]
fn progress_default_is_all_zero() {
    let p = Progress::default();
    assert_eq!(p.current_mine, 0);
    assert_eq!(p.block_progress, 0);
    assert_eq!(p.money_per_block, 0);
    assert_eq!(p.mined, 0);
    assert_eq!(p.money, 0);
}
