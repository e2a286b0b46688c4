use emergence_lib::collections::{TileMap, TileSet};
use emergence_lib::tile::{Entity, TilePos};

#[test]
fn tile_map_insert_get_remove() {
    let mut map: TileMap<u32> = TileMap::new();
    assert_eq!(map.len(), 0);
    map.insert(TilePos::new(1, 1), 10);
    map.insert(TilePos::new(2, 2), 20);
    map.insert(TilePos::new(1, 1), 11);
    assert_eq!(map.len(), 2);
    assert_eq!(map.get(&TilePos::new(1, 1)), Some(&11));
    assert!(map.contains_key(&TilePos::new(2, 2)));
    assert_eq!(map.remove(&TilePos::new(2, 2)), Some(20));
    assert_eq!(map.remove(&TilePos::new(2, 2)), None);
    assert_eq!(map.keys(), vec![TilePos::new(1, 1)]);
    if let Some(v) = map.get_mut(&TilePos::new(1, 1)) {
        *v = 12;
    }
    assert_eq!(map.values(), vec![&12]);
}

#[test]
fn removing_a_value_clears_every_key_holding_it() {
    let mut map: TileMap<Entity> = TileMap::new();
    map.insert(TilePos::new(0, 0), Entity::from_bits(1));
    map.insert(TilePos::new(0, 1), Entity::from_bits(1));
    map.insert(TilePos::new(1, 0), Entity::from_bits(2));
    map.remove_value(Entity::from_bits(1));
    assert_eq!(map.keys(), vec![TilePos::new(1, 0)]);
}

#[test]
fn tile_set_operations() {
    let mut set = TileSet::from_vec(vec![TilePos::new(0, 0), TilePos::new(0, 0), TilePos::new(1, 1)]);
    assert_eq!(set.len(), 2);
    assert!(set.contains(&TilePos::new(1, 1)));
    set.remove(&TilePos::new(1, 1));
    assert!(!set.contains(&TilePos::new(1, 1)));
    set.insert(TilePos::new(2, 2));
    let other = TileSet::from_vec(vec![TilePos::new(2, 2), TilePos::new(0, 0), TilePos::new(3, 3)]);
    assert!(set.is_subset_of(&other));
    assert!(!other.is_subset_of(&set));
    assert_eq!(set, TileSet::from_vec(vec![TilePos::new(2, 2), TilePos::new(0, 0)]));
    assert_ne!(set, other);
    assert_eq!(set.to_vec().len(), 2);
}
