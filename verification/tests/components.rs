//! Construction of the plain component and resource types.

use world_digger::components::{Mine, Progress};
use world_digger::geom::position_inside_rect;

#[test]
fn mine_new_keeps_its_fields() {
    let m = Mine::new(String::from("A"), String::from("Cobblestone"), 0, 5, 5);
    assert_eq!(m.name, "A");
    assert_eq!(m.block_name, "Cobblestone");
    assert_eq!(m.unlock_cost, 0);
    assert_eq!(m.money_per_block, 5);
    assert_eq!(m.tick_per_block, 5);
}

#[test]
fn progress_new_keeps_its_fields() {
    let p = Progress::new(1, 3, 5, 7, 35);
    assert_eq!(p.current_mine, 1);
    assert_eq!(p.block_progress, 3);
    assert_eq!(p.money_per_block, 5);
    assert_eq!(p.mined, 7);
    assert_eq!(p.money, 35);
}

#[test]
fn position_inside_rect_checks_both_axes() {
    assert!(position_inside_rect(0, 0, 0, 0, 20, 20));
    assert!(position_inside_rect(19, 19, 0, 0, 20, 20));
    assert!(!position_inside_rect(20, 5, 0, 0, 20, 20));
    assert!(!position_inside_rect(5, 20, 0, 0, 20, 20));
    assert!(!position_inside_rect(-1, 5, 0, 0, 20, 20));
    assert!(position_inside_rect(-3, 7, -5, 5, 4, 4));
}
