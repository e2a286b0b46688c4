use emergence_lib::collections::TileSet;
use emergence_lib::footprint::Footprint;
use emergence_lib::tile::{Facing, TilePos};

/// A footprint that occupies a line of two adjacent tiles,
/// beginning at the origin and moving right one.
fn two_tile_footprint() -> Footprint {
    Footprint::from_tiles(vec![TilePos::zero(), TilePos::new(1, 0)])
}

#[test]
fn hexagon_footprint_matches() {
    let footprint = Footprint::hexagon(1);
    let expected = Footprint::from_tiles(vec![
        TilePos::zero(),
        TilePos::new(0, 1),
        TilePos::new(1, 0),
        TilePos::new(1, -1),
        TilePos::new(0, -1),
        TilePos::new(-1, 0),
        TilePos::new(-1, 1),
    ]);

    assert_eq!(footprint, expected);
}

#[test]
fn footprint_in_world_space_is_correct_at_origin() {
    let footprint = two_tile_footprint();
    let expected = TileSet::from_vec(vec![TilePos::new(0, 0), TilePos::new(1, 0)]);

    assert_eq!(footprint.in_world_space(TilePos::zero()), expected);
}

#[test]
fn footprint_in_world_space_is_correct_at_non_origin() {
    let footprint = two_tile_footprint();

    let expected = TileSet::from_vec(vec![TilePos::new(1, 0), TilePos::new(2, 0)]);
    assert_eq!(footprint.in_world_space(TilePos::new(1, 0)), expected);

    let expected = TileSet::from_vec(vec![TilePos::new(0, 1), TilePos::new(1, 1)]);
    assert_eq!(footprint.in_world_space(TilePos::new(0, 1)), expected);
}

#[test]
fn footprint_rotated_by_0_is_unchanged() {
    let footprint = two_tile_footprint();
    assert_eq!(footprint.rotated(Facing::default()), footprint);
}

#[test]
fn footprint_rotated_by_60_is_correct() {
    let footprint = two_tile_footprint();
    let expected = Footprint::from_tiles(vec![TilePos::new(0, 0), TilePos::new(0, 1)]);

    let mut facing = Facing::default();
    facing.rotate_clockwise();

    assert_eq!(footprint.rotated(facing), expected);

    let mut facing = Facing::default();
    facing.rotate_counterclockwise();
    facing.rotate_counterclockwise();
    facing.rotate_counterclockwise();
    facing.rotate_counterclockwise();
    facing.rotate_counterclockwise();

    assert_eq!(footprint.rotated(facing), expected);
}

#[test]
fn footprint_rotated_by_120_is_correct() {
    let footprint = two_tile_footprint();
    let expected = Footprint::from_tiles(vec![TilePos::new(0, 0), TilePos::new(-1, 1)]);

    let mut facing = Facing::default();
    facing.rotate_clockwise();
    facing.rotate_clockwise();

    assert_eq!(footprint.rotated(facing), expected);

    let mut facing = Facing::default();
    facing.rotate_counterclockwise();
    facing.rotate_counterclockwise();
    facing.rotate_counterclockwise();
    facing.rotate_counterclockwise();

    assert_eq!(footprint.rotated(facing), expected);
}

#[test]
fn footprint_rotated_by_180_is_correct() {
    let footprint = two_tile_footprint();
    let expected = Footprint::from_tiles(vec![TilePos::new(0, 0), TilePos::new(-1, 0)]);

    let mut facing = Facing::default();
    facing.rotate_clockwise();
    facing.rotate_clockwise();
    facing.rotate_clockwise();

    assert_eq!(footprint.rotated(facing), expected);

    let mut facing = Facing::default();
    facing.rotate_counterclockwise();
    facing.rotate_counterclockwise();
    facing.rotate_counterclockwise();

    assert_eq!(footprint.rotated(facing), expected);
}

#[test]
fn footprint_rotated_by_240_is_correct() {
    let footprint = two_tile_footprint();
    let expected = Footprint::from_tiles(vec![TilePos::new(0, 0), TilePos::new(0, -1)]);

    let mut facing = Facing::default();
    facing.rotate_clockwise();
    facing.rotate_clockwise();
    facing.rotate_clockwise();
    facing.rotate_clockwise();

    assert_eq!(footprint.rotated(facing), expected);

    let mut facing = Facing::default();
    facing.rotate_counterclockwise();
    facing.rotate_counterclockwise();

    assert_eq!(footprint.rotated(facing), expected);
}

#[test]
fn footprint_rotated_by_300_is_correct() {
    let footprint = two_tile_footprint();
    let expected = Footprint::from_tiles(vec![TilePos::new(0, 0), TilePos::new(1, -1)]);

    let mut facing = Facing::default();
    facing.rotate_clockwise();
    facing.rotate_clockwise();
    facing.rotate_clockwise();
    facing.rotate_clockwise();
    facing.rotate_clockwise();

    assert_eq!(footprint.rotated(facing), expected);

    let mut facing = Facing::default();
    facing.rotate_counterclockwise();

    assert_eq!(footprint.rotated(facing), expected);
}

#[test]
fn footprint_rotated_by_360_is_unchanged() {
    let footprint = two_tile_footprint();
    let mut facing = Facing::default();
    facing.rotate_clockwise();
    facing.rotate_clockwise();
    facing.rotate_clockwise();
    facing.rotate_clockwise();
    facing.rotate_clockwise();
    facing.rotate_clockwise();

    assert_eq!(footprint.rotated(facing), footprint);

    let mut facing = Facing::default();
    facing.rotate_counterclockwise();
    facing.rotate_counterclockwise();
    facing.rotate_counterclockwise();
    facing.rotate_counterclockwise();
    facing.rotate_counterclockwise();
    facing.rotate_counterclockwise();

    assert_eq!(footprint.rotated(facing), footprint);
}

#[test]
fn single_footprint_is_the_origin() {
    let footprint = Footprint::single();
    assert_eq!(footprint.tiles(), vec![TilePos::zero()]);
    assert_eq!(Footprint::default(), footprint);
}

#[test]
fn normalized_footprint_rotates_then_shifts() {
    let footprint = two_tile_footprint();
    let mut facing = Facing::default();
    facing.rotate_clockwise();
    let expected = TileSet::from_vec(vec![TilePos::new(5, 5), TilePos::new(5, 6)]);
    assert_eq!(footprint.normalized(facing, TilePos::new(5, 5)), expected);
}

#[test]
fn hexagon_footprint_of_radius_two_has_nineteen_tiles() {
    let footprint = Footprint::hexagon(2);
    assert_eq!(footprint.tiles().len(), 19);
}
