use c33d::ray::{choose_axis, outside, Plane, Step, Walk};
use c33d::world::{Block, World};

#[test]
fn axis_cascade_breaks_ties() {
    assert_eq!(choose_axis(true, true, true), Plane::X);
    assert_eq!(choose_axis(true, false, true), Plane::Z);
    assert_eq!(choose_axis(false, true, true), Plane::Y);
    assert_eq!(choose_axis(false, false, false), Plane::Z);
    // all three equal: Z.
    assert_eq!(choose_axis(false, false, false), Plane::Z);
}

#[test]
fn outside_depends_on_step_direction() {
    assert!(outside(-1, 0, 4, -1));
    assert!(!outside(-1, 0, 4, 1));
    assert!(outside(5, 0, 4, 1));
    assert!(!outside(4, 0, 4, 1));
    assert!(outside(5, 0, 4, 0));
}

#[test]
fn advance_moves_one_axis() {
    let mut w = Walk::new(3, 4, 5, 1, -1, 0);
    w.advance(Plane::Y);
    assert_eq!((w.map_x, w.map_y, w.map_z), (3, 3, 5));
    w.advance(Plane::X);
    assert_eq!((w.map_x, w.map_y, w.map_z), (4, 3, 5));
    w.advance(Plane::Z);
    assert_eq!((w.map_x, w.map_y, w.map_z), (4, 3, 5));
}

#[test]
fn can_advance_guards_extremes() {
    let w = Walk::new(i64::MAX, 0, i64::MIN, 1, 1, -1);
    assert!(!w.can_advance(Plane::X));
    assert!(w.can_advance(Plane::Y));
    assert!(!w.can_advance(Plane::Z));
}

#[test]
fn face_plane_is_far_face_when_stepping_down() {
    let w = Walk::new(2, 2, 2, -1, 1, 0);
    assert_eq!(w.face_plane(Plane::X), 3);
    assert_eq!(w.face_plane(Plane::Y), 2);
    assert_eq!(w.face_plane(Plane::Z), 2);
}

#[test]
fn walk_into_single_stone_hits_it() {
    // A ray from z = 1.5 towards -z through the voxel (0, 0, 0).
    let mut world = World::new(1, 1, 1);
    world.set(0, 0, 0, Block::Stone);
    let mut w = Walk::new(0, 0, 1, 1, 1, -1);
    assert_eq!(w.classify(&world), Step::Continue);
    w.advance(Plane::Z);
    assert_eq!(w.classify(&world), Step::Hit(Block::Stone));
    assert_eq!(w.face_plane(Plane::Z), 1);
}

#[test]
fn walk_through_air_misses() {
    let world = World::new(1, 1, 1);
    let mut w = Walk::new(0, 0, 1, 0, 0, -1);
    w.advance(Plane::Z);
    assert_eq!(w.classify(&world), Step::Continue);
    w.advance(Plane::Z);
    assert_eq!(w.classify(&world), Step::Miss);
}

#[test]
fn walk_pointing_away_misses() {
    let mut world = World::new(2, 1, 2);
    world.set(0, 0, 0, Block::Stone);
    world.set(1, 0, 0, Block::Stone);
    let mut w = Walk::new(1, 0, 1, 0, 1, 0);
    w.advance(Plane::Y);
    assert_eq!(w.classify(&world), Step::Continue);
    w.advance(Plane::Y);
    assert_eq!(w.classify(&world), Step::Miss);
}

#[test]
fn two_stones_hit_on_z_face() {
    let mut world = World::new(2, 1, 2);
    world.set(0, 0, 0, Block::Stone);
    world.set(1, 0, 0, Block::Stone);
    let mut w = Walk::new(1, 0, 2, 1, -1, -1);
    w.advance(Plane::Z);
    assert_eq!(w.classify(&world), Step::Continue);
    w.advance(Plane::Z);
    assert_eq!(w.classify(&world), Step::Hit(Block::Stone));
}
