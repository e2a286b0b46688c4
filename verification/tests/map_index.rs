use emergence_lib::geometry::MapGeometry;
use emergence_lib::hex_patch::{HexPatchLocation, HexRowDirection};
use emergence_lib::map_index::{MapFilter, MapIndex, MapPositions, MapPositionsCache};
use emergence_lib::tile::TilePos;

fn small_template() -> MapPositions {
    MapPositions::new(&MapGeometry::new(1))
}

#[test]
fn map_positions_cover_the_hexagon() {
    let template = small_template();
    assert_eq!(template.n_positions(), 7);
    assert_eq!(template.iter_positions().len(), 7);
    assert!(template.contains_position(&TilePos::zero()));
    assert!(template.contains_position(&TilePos::new(1, -1)));
    assert!(!template.contains_position(&TilePos::new(2, 0)));

    let larger = MapPositions::new(&MapGeometry::new(3));
    assert_eq!(larger.n_positions(), 37);
    assert_eq!(larger.iter_positions().len(), 37);
}

#[test]
fn default_map_positions_are_empty() {
    let template = MapPositions::default();
    assert_eq!(template.n_positions(), 0);
    assert!(template.iter_positions().is_empty());
}

#[test]
fn template_patch_holds_only_template_tiles() {
    let template = small_template();
    let patch = template.get_patch(&TilePos::new(1, 0)).unwrap();
    assert_eq!(patch.get(HexPatchLocation::Center), Some(&TilePos::new(1, 0)));
    // (1, 0) + (-1, 0) is the origin, inside the template.
    assert_eq!(patch.get(HexPatchLocation::NorthWest), Some(&TilePos::new(0, 0)));
    assert_eq!(patch.get(HexPatchLocation::SouthWest), Some(&TilePos::new(0, 1)));
    // (1, 0) + (1, 0) lies outside a map of radius one.
    assert_eq!(patch.get(HexPatchLocation::NorthEast), None);
    assert_eq!(patch.count(), 4);
    assert!(template.get_patch(&TilePos::new(5, 5)).is_none());
}

#[test]
fn new_with_default_fills_the_template_then_applies_data() {
    let template = small_template();
    let filter = MapFilter::new_with_default(
        true,
        &template,
        vec![(TilePos::zero(), false), (TilePos::new(9, 9), false)],
    );
    assert_eq!(*filter.get(&TilePos::zero()).unwrap().read(), false);
    assert_eq!(*filter.get(&TilePos::new(0, 1)).unwrap().read(), true);
    // A position outside the template is skipped.
    assert!(filter.get(&TilePos::new(9, 9)).is_none());
    assert_eq!(filter.positions().len(), 7);
}

#[test]
fn later_pairs_win_when_building_an_index() {
    let template = small_template();
    let index: MapIndex<u32> = MapIndex::new(
        &template,
        vec![(TilePos::zero(), 1), (TilePos::new(0, 1), 2), (TilePos::zero(), 3)],
    );
    assert_eq!(*index.get(&TilePos::zero()).unwrap().read(), 3);
    assert_eq!(*index.get(&TilePos::new(0, 1)).unwrap().read(), 2);
    assert!(index.get(&TilePos::new(1, 0)).is_none());
    assert_eq!(index.positions().len(), 2);
}

#[test]
fn patch_only_shows_tiles_that_hold_data() {
    let template = small_template();
    let index: MapIndex<u32> =
        MapIndex::new(&template, vec![(TilePos::zero(), 7), (TilePos::new(0, 1), 8)]);
    let patch = index.get_patch(&TilePos::zero()).unwrap();
    assert_eq!(*patch.get(HexPatchLocation::Center).unwrap().read(), 7);
    // (0, 1) is the southern neighbor of the origin.
    assert_eq!(*patch.get(HexPatchLocation::South).unwrap().read(), 8);
    assert!(patch.get(HexPatchLocation::North).is_none());
    assert_eq!(patch.count(), 2);
}

#[test]
fn default_from_template_uses_default_values() {
    let template = small_template();
    let index: MapIndex<u32> = MapIndex::default_from_template(&template);
    assert_eq!(index.positions().len(), 7);
    for data in index.values() {
        assert_eq!(*data.read(), 0);
    }
}

#[test]
fn replaced_value_is_seen_by_every_patch() {
    let template = small_template();
    let mut filter = MapFilter::new_with_default(true, &template, Vec::new());
    filter.replace(&TilePos::zero(), false);
    assert_eq!(*filter.get(&TilePos::zero()).unwrap().read(), false);
    let own = filter.get_patch(&TilePos::zero()).unwrap();
    assert_eq!(*own.get(HexPatchLocation::Center).unwrap().read(), false);
    // The origin is the north-western neighbor of (1, 0) ...
    let east = filter.get_patch(&TilePos::new(1, 0)).unwrap();
    assert_eq!(*east.get(HexPatchLocation::NorthWest).unwrap().read(), false);
    assert_eq!(*east.get(HexPatchLocation::Center).unwrap().read(), true);
    // ... and the northern neighbor of (0, 1).
    let south = filter.get_patch(&TilePos::new(0, 1)).unwrap();
    assert_eq!(*south.get(HexPatchLocation::North).unwrap().read(), false);
}

#[test]
fn update_writes_in_order_and_skips_unknown_positions() {
    let template = small_template();
    let mut index: MapIndex<u32> = MapIndex::default_from_template(&template);
    index.update(vec![
        (TilePos::zero(), 1),
        (TilePos::new(4, 4), 2),
        (TilePos::zero(), 5),
        (TilePos::new(1, 0), 6),
    ]);
    assert_eq!(*index.get(&TilePos::zero()).unwrap().read(), 5);
    assert_eq!(*index.get(&TilePos::new(1, 0)).unwrap().read(), 6);
    assert_eq!(*index.get(&TilePos::new(0, 1)).unwrap().read(), 0);
    assert!(index.get(&TilePos::new(4, 4)).is_none());
}

#[test]
fn get_mut_writes_through_to_patches() {
    let template = small_template();
    let mut index: MapIndex<u32> = MapIndex::default_from_template(&template);
    if let Some(data) = index.get_mut(&TilePos::new(0, -1)) {
        data.replace(11);
    }
    assert!(index.get_mut(&TilePos::new(3, 3)).is_none());
    let patch = index.get_patch(&TilePos::zero()).unwrap();
    assert_eq!(*patch.get(HexPatchLocation::North).unwrap().read(), 11);
}

#[test]
fn positions_and_values_line_up() {
    let template = small_template();
    let index: MapIndex<i32> = MapIndex::new(
        &template,
        vec![(TilePos::new(1, 0), 10), (TilePos::new(0, 1), 1), (TilePos::new(-1, 1), -9)],
    );
    let positions = index.positions();
    let values = index.values();
    assert_eq!(positions.len(), values.len());
    for (position, data) in positions.iter().zip(values.iter()) {
        assert_eq!(*data.read(), position.x * 10 + position.y);
    }
}

#[test]
fn positions_cache_holds_neighbors_on_the_map() {
    let cache = MapPositionsCache::populate(&MapGeometry::new(1));
    assert_eq!(cache.positions().len(), 7);
    let origin = cache.get_neighbors(TilePos::zero()).unwrap();
    assert_eq!(origin.count(), 6);
    let edge = cache.get_neighbors(TilePos::new(1, 0)).unwrap();
    assert_eq!(edge.count(), 3);
    assert_eq!(edge.get(HexRowDirection::NorthWest), Some(&TilePos::zero()));
    assert!(cache.get_neighbors(TilePos::new(2, 0)).is_none());
    assert!(MapPositionsCache::default().positions().is_empty());
}
