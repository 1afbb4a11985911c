//! Behaviour of the bit grid and the collision resource.

use world_digger::geom::Point;
use world_digger::grid::CollisionMap;
use world_digger::resource::CollisionResource;

#[test]
fn new_grid_is_all_clear() {
    let m = CollisionMap::new(200, 60);
    assert_eq!(m.size(), (200, 60));
    for &(x, y) in &[(0, 0), (199, 59), (100, 30), (0, 59), (199, 0)] {
        assert!(!m.is_set(x, y));
    }
}

#[test]
fn index_of_and_position_of_are_exact_inverses() {
    let m = CollisionMap::new(200, 60);
    for &(x, y) in &[(0, 0), (1, 0), (0, 1), (199, 59), (37, 23), (63, 1), (64, 1)] {
        let i = m.index_of(x, y);
        assert_eq!(i, y * 200 + x);
        assert_eq!(m.position_of(i), (x, y));
    }
}

#[test]
fn set_then_is_set_then_unset() {
    let mut m = CollisionMap::new(200, 60);
    m.set(2, 3);
    assert!(m.is_set(2, 3));
    assert!(!m.is_set(3, 2));
    assert!(!m.is_set(2, 4));
    m.unset(2, 3);
    assert!(!m.is_set(2, 3));
}

#[test]
fn neighbouring_bits_in_one_word_stay_independent() {
    let mut m = CollisionMap::new(200, 60);
    m.set(10, 0);
    m.set(11, 0);
    m.set(12, 0);
    m.unset(11, 0);
    assert!(m.is_set(10, 0));
    assert!(!m.is_set(11, 0));
    assert!(m.is_set(12, 0));
}

#[test]
fn clear_unsets_every_cell() {
    let mut m = CollisionMap::new(30, 20);
    m.set(0, 0);
    m.set(29, 19);
    m.set(15, 10);
    m.clear();
    for x in 0..30 {
        for y in 0..20 {
            assert!(!m.is_set(x, y));
        }
    }
}

#[test]
fn is_inside_matches_the_viewport_box() {
    let res = CollisionResource::new(CollisionMap::new(10, 8), Point::new(5, -3));
    assert!(res.is_inside(Point::new(5, -3)));
    assert!(res.is_inside(Point::new(14, 4)));
    assert!(!res.is_inside(Point::new(4, 0)));
    assert!(!res.is_inside(Point::new(15, 0)));
    assert!(!res.is_inside(Point::new(10, -4)));
    assert!(!res.is_inside(Point::new(10, 5)));
}

#[test]
fn relative_point_subtracts_the_origin() {
    let res = CollisionResource::new(CollisionMap::new(10, 8), Point::new(5, -3));
    assert_eq!(res.relative_point(Point::new(5, -3)), (0, 0));
    assert_eq!(res.relative_point(Point::new(9, 1)), (4, 4));
}
