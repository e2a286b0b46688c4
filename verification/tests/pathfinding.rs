use emergence_lib::geometry::MapGeometry;
use emergence_lib::hex_patch::HexPatchLocation;
use emergence_lib::map_index::MapPositions;
use emergence_lib::pathfinding::PassabilityCache;
use emergence_lib::tile::TilePos;

fn passable_at(cache: &PassabilityCache, center: TilePos, location: HexPatchLocation) -> Option<bool> {
    cache
        .get_patch(&center)
        .and_then(|patch| patch.get(location).map(|data| *data.read()))
}

#[test]
fn new_cache_is_all_passable() {
    let template = MapPositions::new(&MapGeometry::new(1));
    let cache = PassabilityCache::new(&template);
    assert_eq!(passable_at(&cache, TilePos::zero(), HexPatchLocation::Center), Some(true));
    assert_eq!(passable_at(&cache, TilePos::zero(), HexPatchLocation::North), Some(true));
    assert!(cache.get_patch(&TilePos::new(7, 7)).is_none());
}

#[test]
fn impassable_query_marks_and_clears_tiles() {
    let template = MapPositions::new(&MapGeometry::new(1));
    let mut cache = PassabilityCache::new(&template);

    cache.update_from_impassable_query(vec![TilePos::zero(), TilePos::new(1, 0)]);
    assert_eq!(passable_at(&cache, TilePos::zero(), HexPatchLocation::Center), Some(false));
    assert_eq!(passable_at(&cache, TilePos::zero(), HexPatchLocation::SouthEast), Some(false));
    assert_eq!(passable_at(&cache, TilePos::zero(), HexPatchLocation::South), Some(true));

    // The origin is no longer impassable; (1, 0) still is.
    cache.update_from_impassable_query(vec![TilePos::new(1, 0)]);
    assert_eq!(passable_at(&cache, TilePos::zero(), HexPatchLocation::Center), Some(true));
    assert_eq!(passable_at(&cache, TilePos::new(1, 0), HexPatchLocation::Center), Some(false));

    cache.update_from_impassable_query(Vec::new());
    assert_eq!(passable_at(&cache, TilePos::new(1, 0), HexPatchLocation::Center), Some(true));
}

#[test]
fn changed_queries_only_update_the_record() {
    let template = MapPositions::new(&MapGeometry::new(1));
    let mut cache = PassabilityCache::new(&template);
    cache.update_from_changed_passable_queries(vec![TilePos::zero()], Vec::new());
    // The passability itself is unchanged ...
    assert_eq!(passable_at(&cache, TilePos::zero(), HexPatchLocation::Center), Some(true));
    // ... but the next full update treats the origin as previously impassable:
    // an empty query now turns it passable, which it already is.
    cache.update_from_impassable_query(Vec::new());
    assert_eq!(passable_at(&cache, TilePos::zero(), HexPatchLocation::Center), Some(true));

    cache.update_from_impassable_query(vec![TilePos::new(0, 1)]);
    cache.update_from_changed_passable_queries(Vec::new(), vec![TilePos::new(0, 1)]);
    // The record no longer holds (0, 1), so an update that keeps it
    // impassable marks it impassable again rather than leaving it.
    cache.update_from_impassable_query(vec![TilePos::new(0, 1)]);
    assert_eq!(passable_at(&cache, TilePos::new(0, 1), HexPatchLocation::Center), Some(false));
}
