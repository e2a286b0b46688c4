use emergence_lib::tile::{Direction, Entity, Facing, RotationDirection, TilePos};

#[test]
fn directions_are_numbered_counter_clockwise() {
    let all = Direction::all_directions();
    assert_eq!(all.len(), 6);
    for (i, direction) in all.iter().enumerate() {
        assert_eq!(direction.index() as usize, i);
        assert_eq!(Direction::from_index(i as u8), *direction);
    }
    assert_eq!(all[0], Direction::TopRight);
    assert_eq!(all[5], Direction::BottomRight);
}

#[test]
fn neighbors_follow_the_direction_vectors() {
    let p = TilePos::new(3, -2);
    assert_eq!(p.neighbor(Direction::TopRight), TilePos::new(4, -3));
    assert_eq!(p.neighbor(Direction::Top), TilePos::new(3, -3));
    assert_eq!(p.neighbor(Direction::TopLeft), TilePos::new(2, -2));
    assert_eq!(p.neighbor(Direction::BottomLeft), TilePos::new(2, -1));
    assert_eq!(p.neighbor(Direction::Bottom), TilePos::new(3, -1));
    assert_eq!(p.neighbor(Direction::BottomRight), TilePos::new(4, -2));
}

#[test]
fn facing_rotation_counts() {
    let mut facing = Facing::default();
    assert_eq!(facing.direction, Direction::Top);
    assert_eq!(facing.rotation_count(), 0);
    facing.rotate_counterclockwise();
    assert_eq!(facing.direction, Direction::TopLeft);
    assert_eq!(facing.rotation_count(), 1);
    let mut facing = Facing::default();
    facing.rotate_clockwise();
    assert_eq!(facing.direction, Direction::TopRight);
    assert_eq!(facing.rotation_count(), 5);
}

#[test]
fn clockwise_and_counterclockwise_undo_each_other() {
    for direction in Direction::all_directions() {
        let mut facing = Facing { direction };
        facing.rotate_clockwise();
        facing.rotate_counterclockwise();
        assert_eq!(facing.direction, direction);
        let mut facing = Facing { direction };
        for _ in 0..6 {
            facing.rotate_clockwise();
        }
        assert_eq!(facing.direction, direction);
    }
}

#[test]
fn tile_rotation_follows_facing() {
    let p = TilePos::new(2, -1);
    assert_eq!(p.rotated(Facing::default()), p);
    let mut facing = Facing::default();
    facing.rotate_counterclockwise();
    // One counter-clockwise step maps (x, y) to (x + y, -x).
    assert_eq!(p.rotated(facing), TilePos::new(1, -2));
    let mut facing = Facing::default();
    facing.rotate_clockwise();
    // One clockwise step maps (x, y) to (-y, x + y).
    assert_eq!(p.rotated(facing), TilePos::new(1, 1));
}

#[test]
fn offsets_add_componentwise() {
    assert_eq!(TilePos::new(1, 2).offset_by(TilePos::new(-3, 5)), TilePos::new(-2, 7));
}

#[test]
fn entities_keep_their_bits() {
    let e = Entity::from_bits(42);
    assert_eq!(e.to_bits(), 42);
}

#[test]
fn random_facings_and_rotation_directions_cover_all_choices() {
    let mut rng = rand::thread_rng();
    let mut seen_facings = Vec::new();
    let mut seen_left = false;
    let mut seen_right = false;
    for _ in 0..500 {
        let facing = Facing::random(&mut rng);
        if !seen_facings.contains(&facing.direction) {
            seen_facings.push(facing.direction);
        }
        match RotationDirection::random(&mut rng) {
            RotationDirection::Left => seen_left = true,
            RotationDirection::Right => seen_right = true,
        }
    }
    assert_eq!(seen_facings.len(), 6);
    assert!(seen_left && seen_right);
}
