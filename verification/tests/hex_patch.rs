use emergence_lib::geometry::MapGeometry;
use emergence_lib::hex_patch::{HexPatch, HexPatchLocation, HexRowDirection};
use emergence_lib::map_data::MapData;
use emergence_lib::tile::{Direction, TilePos};

fn patch_of_indices() -> HexPatch<u32> {
    let mut patch: HexPatch<u32> = HexPatch::default();
    *patch.get_mut(HexPatchLocation::Center) = Some(0);
    *patch.get_mut(HexPatchLocation::North) = Some(1);
    *patch.get_mut(HexPatchLocation::South) = Some(4);
    patch
}

#[test]
fn patch_locations_map_to_row_directions() {
    assert_eq!(HexPatchLocation::Center.as_hex_row_direction(), None);
    assert_eq!(HexPatchLocation::North.as_hex_row_direction(), Some(HexRowDirection::North));
    assert_eq!(HexPatchLocation::NorthEast.as_hex_row_direction(), Some(HexRowDirection::NorthEast));
    assert_eq!(HexPatchLocation::variants().len(), 7);
    assert_eq!(HexRowDirection::variants().len(), 6);
    assert_eq!(HexRowDirection::North.direction(), Direction::Top);
    assert_eq!(HexRowDirection::SouthEast.direction(), Direction::BottomRight);
}

#[test]
fn patch_get_and_count() {
    let mut patch = patch_of_indices();
    assert_eq!(patch.get(HexPatchLocation::North), Some(&1));
    assert_eq!(patch.get(HexPatchLocation::NorthWest), None);
    assert_eq!(patch.count(), 3);
    let values: Vec<u32> = patch.iter().into_iter().copied().collect();
    assert_eq!(values, vec![0, 1, 4]);
    if let Some(v) = patch.get_inner_mut(HexPatchLocation::South) {
        *v = 40;
    }
    assert!(patch.get_inner_mut(HexPatchLocation::SouthWest).is_none());
    assert_eq!(patch.get(HexPatchLocation::South), Some(&40));
}

#[test]
fn patch_maps_keep_locations() {
    let patch = patch_of_indices();
    let doubled = patch.map_ref(|v: &u32| *v * 2);
    assert_eq!(doubled.get(HexPatchLocation::North), Some(&2));
    assert_eq!(doubled.get(HexPatchLocation::NorthWest), None);
    let odd = patch.and_then_ref(|v: &u32| if *v % 2 == 1 { Some(*v) } else { None });
    assert_eq!(odd.count(), 1);
    assert_eq!(odd.get(HexPatchLocation::North), Some(&1));
    let owned = patch.and_then(|v: u32| if v > 0 { Some(v + 100) } else { None });
    assert_eq!(owned.get(HexPatchLocation::South), Some(&104));
    assert_eq!(owned.get(HexPatchLocation::Center), None);
}

#[test]
fn patch_from_locational_closure() {
    let patch = HexPatch::from_locational_closure(|location: HexPatchLocation| {
        if location == HexPatchLocation::Center {
            None
        } else {
            Some(1u8)
        }
    });
    assert_eq!(patch.count(), 6);
    assert_eq!(patch.get(HexPatchLocation::Center), None);
}

#[test]
fn patch_filter_passes_true_and_defaults_elsewhere() {
    let patch = patch_of_indices();
    let mut filter: HexPatch<MapData<bool>> = HexPatch::default();
    *filter.get_mut(HexPatchLocation::Center) = Some(MapData::new(false));
    *filter.get_mut(HexPatchLocation::North) = Some(MapData::new(true));
    let kept = patch.apply_filter(&filter, false);
    assert_eq!(kept.count(), 1);
    assert_eq!(kept.get(HexPatchLocation::North), Some(&&1));
    let kept_by_default = patch.apply_filter(&filter, true);
    // South has no filter data and takes the default.
    assert_eq!(kept_by_default.count(), 2);
    assert_eq!(kept_by_default.cloned().get(HexPatchLocation::South), Some(&4));
}

#[test]
fn generated_patch_stays_on_the_map() {
    let map_geometry = MapGeometry::new(1);
    let patch = HexPatch::generate(&TilePos::new(0, 1), &map_geometry);
    assert_eq!(patch.get(HexPatchLocation::Center), Some(&TilePos::new(0, 1)));
    assert_eq!(patch.get(HexPatchLocation::North), Some(&TilePos::new(0, 0)));
    assert_eq!(patch.get(HexPatchLocation::South), None);
    assert_eq!(patch.count(), 4);
    let mut rng = rand::thread_rng();
    for _ in 0..20 {
        let choice = patch.choose_random(&mut rng).unwrap();
        assert!(patch.iter().contains(&&choice));
    }
    let empty: HexPatch<TilePos> = HexPatch::empty();
    assert_eq!(empty.choose_random(&mut rng), None);
}
