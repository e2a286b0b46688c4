use emergence_lib::geometry::MapGeometry;
use emergence_lib::hex_patch::HexRowDirection;
use emergence_lib::map_data::MapData;
use emergence_lib::neighbors::HexNeighbors;
use emergence_lib::tile::TilePos;

#[test]
fn neighbors_set_get_and_count() {
    let mut neighbors: HexNeighbors<u32> = HexNeighbors::empty();
    assert_eq!(neighbors.count(), 0);
    neighbors.set(HexRowDirection::North, 5);
    neighbors.set(HexRowDirection::SouthEast, 6);
    assert_eq!(neighbors.get(HexRowDirection::North), Some(&5));
    assert_eq!(neighbors.get(HexRowDirection::South), None);
    assert_eq!(neighbors.count(), 2);
    if let Some(v) = neighbors.get_mut(HexRowDirection::SouthEast) {
        *v = 60;
    }
    let values: Vec<u32> = neighbors.iter().into_iter().copied().collect();
    assert_eq!(values, vec![5, 60]);
}

#[test]
fn neighbors_maps_and_filters() {
    let neighbors = HexNeighbors::from_directional_closure(|direction: HexRowDirection| {
        if direction == HexRowDirection::South {
            None
        } else {
            Some(2u32)
        }
    });
    assert_eq!(neighbors.count(), 5);
    let squared = neighbors.map_ref(|v: &u32| *v * *v);
    assert_eq!(squared.get(HexRowDirection::North), Some(&4));
    let none = neighbors.and_then_ref(|_v: &u32| None::<u32>);
    assert_eq!(none.count(), 0);
    let mut filter: HexNeighbors<MapData<bool>> = HexNeighbors::empty();
    filter.set(HexRowDirection::North, MapData::new(true));
    filter.set(HexRowDirection::NorthWest, MapData::new(false));
    let kept = neighbors.apply_filter(&filter, false);
    assert_eq!(kept.count(), 1);
    assert_eq!(kept.cloned().get(HexRowDirection::North), Some(&2));
    let owned = neighbors.and_then(|v: u32| Some(v + 1));
    assert_eq!(owned.get(HexRowDirection::NorthEast), Some(&3));
}

#[test]
fn neighbors_on_the_map_only() {
    let map_geometry = MapGeometry::new(1);
    let neighbors = HexNeighbors::get_neighbors(&TilePos::new(1, 0), &map_geometry);
    assert_eq!(neighbors.count(), 3);
    assert_eq!(neighbors.get(HexRowDirection::North), Some(&TilePos::new(1, -1)));
    assert_eq!(neighbors.get(HexRowDirection::SouthEast), None);
    let mut rng = rand::thread_rng();
    let choice = neighbors.choose_random(&mut rng).unwrap();
    assert!(map_geometry.is_valid(choice));
    assert!(HexNeighbors::<TilePos>::empty().choose_random(&mut rng).is_none());
}
