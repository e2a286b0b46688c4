use emergence_lib::generation::{
    generate_organism_positions, passable_positions, split_organism_positions, OrganismCounts,
};
use emergence_lib::tile::TilePos;

fn counts() -> OrganismCounts {
    OrganismCounts {
        n_ant: 2,
        n_plant: 3,
        n_fungi: 1,
        n_hive: 1,
    }
}

#[test]
fn positions_are_handed_out_from_the_back() {
    let chosen: Vec<TilePos> = (0..8).map(|i| TilePos::new(i, 0)).collect();
    let positions = split_organism_positions(chosen, &counts());
    assert_eq!(positions.ants, vec![TilePos::new(6, 0), TilePos::new(7, 0)]);
    assert_eq!(
        positions.plants,
        vec![TilePos::new(3, 0), TilePos::new(4, 0), TilePos::new(5, 0)]
    );
    assert_eq!(positions.fungi, vec![TilePos::new(2, 0)]);
    assert_eq!(positions.hives, vec![TilePos::new(1, 0)]);
}

#[test]
fn passable_positions_skip_impassable_terrain() {
    let tiles = vec![
        (TilePos::new(0, 0), false),
        (TilePos::new(1, 0), true),
        (TilePos::new(2, 0), false),
    ];
    assert_eq!(passable_positions(&tiles), vec![TilePos::new(0, 0), TilePos::new(2, 0)]);
}

#[test]
fn organisms_start_on_distinct_passable_tiles() {
    let tiles: Vec<(TilePos, bool)> = (0..14).map(|i| (TilePos::new(i, -i), i % 2 == 1)).collect();
    let mut rng = rand::thread_rng();
    for _ in 0..20 {
        let positions = generate_organism_positions(&tiles, &counts(), &mut rng);
        assert_eq!(positions.ants.len(), 2);
        assert_eq!(positions.plants.len(), 3);
        assert_eq!(positions.fungi.len(), 1);
        assert_eq!(positions.hives.len(), 1);
        let mut all = Vec::new();
        all.extend(positions.ants);
        all.extend(positions.plants);
        all.extend(positions.fungi);
        all.extend(positions.hives);
        for (i, p) in all.iter().enumerate() {
            assert!(tiles.contains(&(*p, false)));
            assert!(!all[i + 1..].contains(p));
        }
    }
}

#[test]
fn every_passable_tile_is_used_when_counts_match() {
    let mut tiles: Vec<(TilePos, bool)> = (0..7).map(|i| (TilePos::new(0, i), false)).collect();
    tiles.push((TilePos::new(5, 5), true));
    let mut rng = rand::thread_rng();
    let positions = generate_organism_positions(&tiles, &counts(), &mut rng);
    let total = positions.ants.len() + positions.plants.len() + positions.fungi.len() + positions.hives.len();
    assert_eq!(total, 7);
    assert!(!positions.ants.contains(&TilePos::new(5, 5)));
    assert_eq!(counts().n_entities(), 7);
}
