use emergence_lib::footprint::Footprint;
use emergence_lib::geometry::{random_candidates, DeliveryMode, InventoryState, MapGeometry};
use emergence_lib::ghosts::GhostKind;
use emergence_lib::tile::{Entity, Facing, TilePos};

#[test]
fn adding_multi_tile_structure_adds_to_index() {
    let mut map_geometry = MapGeometry::new(10);

    let footprint = Footprint::hexagon(1);
    let structure_entity = Entity::from_bits(42);
    let facing = Facing::default();
    let center = TilePos::new(17, -2);
    let passable = false;

    map_geometry.add_structure(facing, center, &footprint, passable, structure_entity);

    // Check that the structure index was updated correctly
    for tile_pos in footprint.normalized(facing, center).to_vec() {
        assert_eq!(Some(structure_entity), map_geometry.get_structure(tile_pos));
    }
}

#[test]
fn removing_multi_tile_structure_clears_indexes() {
    let mut map_geometry = MapGeometry::new(10);

    let footprint = Footprint::hexagon(1);
    let structure_entity = Entity::from_bits(42);
    let facing = Facing::default();
    let center = TilePos::new(17, -2);
    let passable = false;

    map_geometry.add_structure(facing, center, &footprint, passable, structure_entity);
    map_geometry.remove_structure(center);

    // Check that the structure index was updated correctly
    for tile_pos in footprint.normalized(facing, center).to_vec() {
        assert_eq!(None, map_geometry.get_structure(tile_pos));
    }
}

#[test]
fn map_size_and_validity() {
    let map_geometry = MapGeometry::new(3);
    assert_eq!(map_geometry.radius(), 3);
    assert_eq!(map_geometry.center(), TilePos::zero());
    assert_eq!(map_geometry.n_positions(), 37);
    assert_eq!(map_geometry.diameter(), 7);
    assert_eq!(map_geometry.valid_tile_positions().len(), 37);
    assert!(map_geometry.is_valid(TilePos::new(3, -3)));
    assert!(map_geometry.is_valid(TilePos::new(-3, 0)));
    assert!(!map_geometry.is_valid(TilePos::new(2, 2)));
    assert!(!map_geometry.is_valid(TilePos::new(4, 0)));
}

#[test]
fn ocean_rings_the_map() {
    let map_geometry = MapGeometry::new(2);
    let ocean = map_geometry.ocean_tiles();
    assert_eq!(ocean.len(), 18);
    for tile_pos in ocean {
        assert!(!map_geometry.is_valid(tile_pos));
        assert!(MapGeometry::new(3).is_valid(tile_pos));
    }
}

#[test]
fn neighbors_split_into_valid_and_out_of_bounds() {
    let map_geometry = MapGeometry::new(1);
    let edge = TilePos::new(1, 0);
    assert_eq!(edge.all_neighbors().len(), 6);
    assert_eq!(
        edge.all_valid_neighbors(&map_geometry),
        vec![TilePos::new(1, -1), TilePos::new(0, 0), TilePos::new(0, 1)]
    );
    assert_eq!(
        edge.out_of_bounds_neighbors(&map_geometry),
        vec![TilePos::new(2, -1), TilePos::new(1, 1), TilePos::new(2, 0)]
    );
}

#[test]
fn random_tiles_lie_on_the_map() {
    let map_geometry = MapGeometry::new(4);
    let mut rng = rand::thread_rng();
    for _ in 0..100 {
        assert!(map_geometry.is_valid(TilePos::random(&map_geometry, &mut rng)));
    }
}

#[test]
fn terrain_and_ghost_indexes() {
    let mut map_geometry = MapGeometry::new(3);
    let tile_pos = TilePos::new(1, 1);
    assert_eq!(map_geometry.get_terrain(tile_pos), None);
    map_geometry.add_terrain(tile_pos, Entity::from_bits(3));
    assert_eq!(map_geometry.get_terrain(tile_pos), Some(Entity::from_bits(3)));

    map_geometry.add_ghost_terrain(Entity::from_bits(4), tile_pos);
    assert_eq!(map_geometry.get_ghost_terrain(tile_pos), Some(Entity::from_bits(4)));
    assert_eq!(map_geometry.remove_ghost_terrain(tile_pos), Some(Entity::from_bits(4)));
    assert_eq!(map_geometry.get_ghost_terrain(tile_pos), None);
    assert_eq!(map_geometry.remove_ghost_terrain(tile_pos), None);
}

#[test]
fn removing_a_ghost_clears_its_whole_footprint() {
    let mut map_geometry = MapGeometry::new(5);
    let footprint = Footprint::hexagon(1);
    let facing = Facing::default();
    let center = TilePos::new(1, 1);
    let ghost = Entity::from_bits(9);
    map_geometry.add_ghost_structure(facing, center, &footprint, ghost);
    assert_eq!(map_geometry.get_ghost_structure(TilePos::new(2, 1)), Some(ghost));
    assert_eq!(map_geometry.remove_ghost_structure(TilePos::new(2, 1)), Some(ghost));
    for tile_pos in footprint.normalized(facing, center).to_vec() {
        assert_eq!(map_geometry.get_ghost_structure(tile_pos), None);
    }
}

#[test]
fn candidates_depend_on_delivery_mode() {
    let mut map_geometry = MapGeometry::new(3);
    let footprint = Footprint::single();
    let facing = Facing::default();
    let tile_pos = TilePos::new(0, 1);
    map_geometry.add_structure(facing, tile_pos, &footprint, true, Entity::from_bits(1));
    map_geometry.add_ghost_structure(facing, tile_pos, &footprint, Entity::from_bits(2));
    map_geometry.add_terrain(tile_pos, Entity::from_bits(3));
    map_geometry.add_ghost_terrain(Entity::from_bits(4), tile_pos);
    assert_eq!(
        map_geometry.get_candidates(tile_pos, DeliveryMode::DropOff),
        vec![Entity::from_bits(1), Entity::from_bits(4), Entity::from_bits(2)]
    );
    assert_eq!(
        map_geometry.get_candidates(tile_pos, DeliveryMode::PickUp),
        vec![Entity::from_bits(1), Entity::from_bits(4), Entity::from_bits(3)]
    );
    assert_eq!(
        map_geometry.get_workplaces(tile_pos),
        vec![Entity::from_bits(2), Entity::from_bits(1)]
    );
    assert!(map_geometry.get_candidates(TilePos::zero(), DeliveryMode::PickUp).is_empty());
}

#[test]
fn space_checks_see_structures_and_ghosts() {
    let mut map_geometry = MapGeometry::new(5);
    let footprint = Footprint::hexagon(1);
    let facing = Facing::default();
    let center = TilePos::zero();
    assert!(map_geometry.is_footprint_valid(center, &footprint, facing));
    assert!(!map_geometry.is_footprint_valid(TilePos::new(5, 0), &footprint, facing));
    assert!(map_geometry.is_space_available(center, &footprint, facing));
    assert!(map_geometry.can_spawn_structure(center, &footprint, facing));

    let structure = Entity::from_bits(1);
    map_geometry.add_structure(facing, TilePos::new(1, 0), &Footprint::single(), false, structure);
    assert!(!map_geometry.is_space_available(center, &footprint, facing));
    assert!(!map_geometry.can_spawn_structure(center, &footprint, facing));
    assert!(map_geometry.is_space_available_to_transform(structure, center, &footprint, facing));
    assert!(!map_geometry.is_space_available_to_transform(
        Entity::from_bits(2),
        center,
        &footprint,
        facing
    ));
    assert!(map_geometry.can_transform(structure, center, &footprint, facing, true));
    assert!(!map_geometry.can_transform(structure, center, &footprint, facing, false));
    assert!(!map_geometry.can_build(center, &footprint, facing, true, true));

    map_geometry.add_ghost_structure(facing, TilePos::new(-1, 0), &Footprint::single(), Entity::from_bits(3));
    assert!(!map_geometry.is_space_available_to_transform(structure, center, &footprint, facing));
    assert_eq!(
        map_geometry.ghosts_under_footprint(center, &footprint, facing),
        vec![Entity::from_bits(3)]
    );
    assert!(map_geometry
        .ghosts_under_footprint(TilePos::new(3, 0), &footprint, facing)
        .is_empty());
    assert!(!map_geometry.can_spawn_structure(TilePos::new(6, 0), &Footprint::single(), facing));
}

#[test]
fn ghosts_are_listed_once_per_tile() {
    let mut map_geometry = MapGeometry::new(5);
    let facing = Facing::default();
    let ghost = Entity::from_bits(8);
    map_geometry.add_ghost_structure(facing, TilePos::zero(), &Footprint::hexagon(1), ghost);
    let under = map_geometry.ghosts_under_footprint(TilePos::new(1, 0), &Footprint::hexagon(1), facing);
    // The hexagons around (0, 0) and (1, 0) share four tiles.
    assert_eq!(under, vec![ghost, ghost, ghost, ghost]);
}

#[test]
fn building_needs_flat_dry_free_land() {
    let map_geometry = MapGeometry::new(5);
    let footprint = Footprint::hexagon(1);
    let facing = Facing::default();
    assert!(map_geometry.can_build(TilePos::zero(), &footprint, facing, true, true));
    assert!(!map_geometry.can_build(TilePos::zero(), &footprint, facing, false, true));
    assert!(!map_geometry.can_build(TilePos::zero(), &footprint, facing, true, false));
    assert!(!map_geometry.can_build(TilePos::new(5, 0), &footprint, facing, true, true));
}

#[test]
fn passability_checks_structures_litter_water_and_height() {
    let mut map_geometry = MapGeometry::new(3);
    let start = TilePos::zero();
    let end = TilePos::new(1, 0);
    assert!(map_geometry.is_passable(start, end, true, true));
    assert!(!map_geometry.is_passable(start, end, false, true));
    assert!(!map_geometry.is_passable(start, end, true, false));
    assert!(!map_geometry.is_passable(start, TilePos::new(4, 0), true, true));

    map_geometry.update_litter_state(end, InventoryState::Full);
    assert!(!map_geometry.is_passable(start, end, true, true));
    map_geometry.update_litter_state(end, InventoryState::Partial);
    assert!(map_geometry.is_passable(start, end, true, true));

    let footprint = Footprint::single();
    let facing = Facing::default();
    // Any structure on the ending tile blocks the step.
    map_geometry.add_structure(facing, end, &footprint, true, Entity::from_bits(5));
    assert!(!map_geometry.is_passable(start, end, true, true));
    map_geometry.remove_structure(end);
    assert!(map_geometry.is_passable(start, end, true, true));
    map_geometry.add_structure(facing, end, &footprint, false, Entity::from_bits(6));
    assert!(!map_geometry.is_passable(start, end, true, true));
    assert_eq!(map_geometry.remove_structure(end), Some(Entity::from_bits(6)));
    assert!(map_geometry.is_passable(start, end, true, true));
}

#[test]
fn placing_a_ghost_replaces_the_ghosts_under_it() {
    let mut map_geometry = MapGeometry::new(5);
    let facing = Facing::default();
    let old_ghost = Entity::from_bits(1);
    let other_ghost = Entity::from_bits(2);
    let new_ghost = Entity::from_bits(3);
    map_geometry.add_ghost_structure(facing, TilePos::new(-1, 0), &Footprint::hexagon(1), old_ghost);
    map_geometry.add_ghost_structure(facing, TilePos::new(3, 0), &Footprint::single(), other_ghost);

    let replaced = map_geometry.place_ghost_structure(TilePos::new(1, 0), &Footprint::single(), facing, new_ghost);
    assert_eq!(replaced, Vec::<Entity>::new());
    assert_eq!(map_geometry.get_ghost_structure(TilePos::new(1, 0)), Some(new_ghost));

    let replaced = map_geometry.place_ghost_structure(TilePos::zero(), &Footprint::single(), facing, new_ghost);
    assert_eq!(replaced, vec![old_ghost]);
    // The old ghost is gone from every tile it covered, not only the center.
    assert_eq!(map_geometry.get_ghost_structure(TilePos::new(-2, 0)), None);
    assert_eq!(map_geometry.get_ghost_structure(TilePos::new(-1, 1)), None);
    assert_eq!(map_geometry.get_ghost_structure(TilePos::zero()), Some(new_ghost));
    assert_eq!(map_geometry.get_ghost_structure(TilePos::new(1, 0)), Some(new_ghost));
    assert_eq!(map_geometry.get_ghost_structure(TilePos::new(3, 0)), Some(other_ghost));
}

#[test]
fn previews_are_forbidden_on_occupied_tiles() {
    let mut map_geometry = MapGeometry::new(3);
    let facing = Facing::default();
    let footprint = Footprint::hexagon(1);
    assert_eq!(
        map_geometry.preview_kind(TilePos::zero(), &footprint, facing),
        Some(GhostKind::Preview)
    );
    map_geometry.add_structure(facing, TilePos::new(0, 1), &Footprint::single(), true, Entity::from_bits(1));
    assert_eq!(
        map_geometry.preview_kind(TilePos::zero(), &footprint, facing),
        Some(GhostKind::ForbiddenPreview)
    );
    assert_eq!(map_geometry.preview_kind(TilePos::new(4, 0), &footprint, facing), None);
}

#[test]
fn random_tiles_reach_the_edge_of_the_map() {
    let map_geometry = MapGeometry::new(1);
    assert_eq!(random_candidates(&map_geometry).len(), 7);
    assert_eq!(random_candidates(&MapGeometry::new(4)).len(), 61);
    let mut rng = rand::thread_rng();
    let mut seen = Vec::new();
    for _ in 0..1000 {
        let tile_pos = TilePos::random(&map_geometry, &mut rng);
        if !seen.contains(&tile_pos) {
            seen.push(tile_pos);
        }
    }
    assert_eq!(seen.len(), 7);
    assert!(seen.contains(&TilePos::new(1, 0)));
    assert_eq!(TilePos::random(&MapGeometry::new(0), &mut rng), TilePos::zero());
}

#[test]
fn removing_a_structure_unblocks_all_of_its_tiles() {
    let mut map_geometry = MapGeometry::new(5);
    let facing = Facing::default();
    map_geometry.add_structure(facing, TilePos::zero(), &Footprint::hexagon(1), false, Entity::from_bits(7));
    assert_eq!(map_geometry.remove_structure(TilePos::new(1, 0)), Some(Entity::from_bits(7)));
    for tile_pos in Footprint::hexagon(1).normalized(facing, TilePos::zero()).to_vec() {
        assert!(map_geometry.is_passable(TilePos::new(3, -1), tile_pos, true, true));
    }
}

#[test]
fn valid_positions_are_listed_by_column() {
    let positions = MapGeometry::new(1).valid_tile_positions();
    assert_eq!(
        positions,
        vec![
            TilePos::new(-1, 0),
            TilePos::new(-1, 1),
            TilePos::new(0, -1),
            TilePos::new(0, 0),
            TilePos::new(0, 1),
            TilePos::new(1, -1),
            TilePos::new(1, 0),
        ]
    );
}
