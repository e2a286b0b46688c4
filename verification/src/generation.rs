//! Where the organisms of a new world start.

use crate::random::{choose_multiple, picked_from};
use crate::tile::TilePos;
use vstd::prelude::*;

verus! {

/// How many organisms of each kind a new world starts with.
#[derive(Debug, Clone, Copy, PartialEq, Eq, Structural)]
pub struct OrganismCounts {
    /// The number of ants.
    pub n_ant: usize,
    /// The number of plants.
    pub n_plant: usize,
    /// The number of fungi.
    pub n_fungi: usize,
    /// The number of hives.
    pub n_hive: usize,
}

impl OrganismCounts {
    /// The number of organisms of all kinds.
    pub open spec fn total(self) -> int {
        self.n_ant + self.n_plant + self.n_fungi + self.n_hive
    }

    /// The number of organisms of all kinds.
    pub fn n_entities(&self) -> (n: usize)
        requires
            self.total() <= usize::MAX,
        ensures
            n == self.total(),
    {
        self.n_ant + self.n_plant + self.n_fungi + self.n_hive
    }
}

/// Where each kind of organism starts.
#[derive(Debug)]
pub struct OrganismPositions {
    /// The starting tiles of the ants.
    pub ants: Vec<TilePos>,
    /// The starting tiles of the plants.
    pub plants: Vec<TilePos>,
    /// The starting tiles of the fungi.
    pub fungi: Vec<TilePos>,
    /// The starting tiles of the hives.
    pub hives: Vec<TilePos>,
}

/// Hands out `chosen` tiles to the kinds of organisms, from the back: the
/// ants take the last `n_ant` tiles, the plants the `n_plant` tiles before
/// those, then the fungi, then the hives.
pub fn split_organism_positions(chosen: Vec<TilePos>, counts: &OrganismCounts) -> (r:
    OrganismPositions)
    requires
        counts.total() <= chosen@.len(),
    ensures
        ({
            let n = chosen@.len() as int;
            let a = n - counts.n_ant;
            let p = a - counts.n_plant;
            let f = p - counts.n_fungi;
            let h = f - counts.n_hive;
            &&& r.ants@ == chosen@.subrange(a, n)
            &&& r.plants@ == chosen@.subrange(p, a)
            &&& r.fungi@ == chosen@.subrange(f, p)
            &&& r.hives@ == chosen@.subrange(h, f)
        }),
{
    let ghost s = chosen@;
    let mut entity_positions = chosen;
    let ants = entity_positions.split_off(entity_positions.len() - counts.n_ant);
    let plants = entity_positions.split_off(entity_positions.len() - counts.n_plant);
    let fungi = entity_positions.split_off(entity_positions.len() - counts.n_fungi);
    let hives = entity_positions.split_off(entity_positions.len() - counts.n_hive);
    proof {
        let n = s.len() as int;
        let a = n - counts.n_ant;
        let p = a - counts.n_plant;
        let f = p - counts.n_fungi;
        assert(plants@ =~= s.subrange(p, a));
        assert(fungi@ =~= s.subrange(f, p));
        assert(hives@ =~= s.subrange(f - counts.n_hive, f));
    }
    OrganismPositions { ants, plants, fungi, hives }
}

/// The positions of the tiles whose terrain is not impassable, in order. Each
/// entry of `tiles` is a position and whether its terrain is impassable.
pub fn passable_positions(tiles: &Vec<(TilePos, bool)>) -> (v: Vec<TilePos>)
    ensures
        v@ == tiles@.filter(|t: (TilePos, bool)| !t.1).map_values(|t: (TilePos, bool)| t.0),
        forall|p: TilePos| #[trigger] v@.contains(p) <==> tiles@.contains((p, false)),
        tiles@.map_values(|t: (TilePos, bool)| t.0).no_duplicates() ==> v@.no_duplicates(),
{
    let ghost pred = |t: (TilePos, bool)| !t.1;
    let ghost pos = |t: (TilePos, bool)| t.0;
    let mut v: Vec<TilePos> = Vec::new();
    let mut i: usize = 0;
    while i < tiles.len()
        invariant
            i <= tiles@.len(),
            pred == (|t: (TilePos, bool)| !t.1),
            pos == (|t: (TilePos, bool)| t.0),
            v@ == tiles@.subrange(0, i as int).filter(pred).map_values(pos),
            forall|k: int|
                #![trigger v@[k]]
                0 <= k < v@.len() ==> exists|j: int|
                    0 <= j < i && #[trigger] tiles@[j] == (v@[k], false),
            forall|j: int| 0 <= j < i && !tiles@[j].1 ==> v@.contains(#[trigger] tiles@[j].0),
            tiles@.map_values(pos).no_duplicates() ==> v@.no_duplicates(),
        decreases tiles@.len() - i,
    {
        let ghost before = v@;
        proof {
            let s = tiles@.subrange(0, i + 1);
            assert(s.drop_last() =~= tiles@.subrange(0, i as int));
            reveal_with_fuel(Seq::filter, 1);
        }
        let (p, impassable) = tiles[i];
        if !impassable {
            v.push(p);
            assert(v@ =~= tiles@.subrange(0, i + 1).filter(pred).map_values(pos));
            assert(v@[before.len() as int] == p);
            proof {
                if tiles@.map_values(pos).no_duplicates() {
                    assert forall|a: int, b: int| 0 <= a < v@.len() && 0 <= b < v@.len() && a != b implies v@[a]
                        != v@[b] by {
                        if a == before.len() || b == before.len() {
                            let k = if a == before.len() { b } else { a };
                            let j = choose|j: int| 0 <= j < i && #[trigger] tiles@[j] == (before[k], false);
                            assert(tiles@.map_values(pos)[j] == before[k]);
                            assert(tiles@.map_values(pos)[i as int] == p);
                        }
                    }
                }
            }
            assert forall|k: int| #![trigger v@[k]] 0 <= k < v@.len() implies exists|j: int|
                0 <= j < i + 1 && #[trigger] tiles@[j] == (v@[k], false) by {
                if k == before.len() {
                    assert(tiles@[i as int] == (v@[k], false));
                } else {
                    assert(v@[k] == before[k]);
                }
            }
            assert forall|j: int| 0 <= j < i + 1 && !tiles@[j].1 implies v@.contains(
                #[trigger] tiles@[j].0,
            ) by {
                if j < i {
                    let k = choose|k: int| 0 <= k < before.len() && before[k] == tiles@[j].0;
                    assert(v@[k] == tiles@[j].0);
                }
            }
        } else {
            assert(v@ =~= tiles@.subrange(0, i + 1).filter(pred).map_values(pos));
        }
        i = i + 1;
    }
    assert(tiles@.subrange(0, tiles@.len() as int) =~= tiles@);
    assert forall|p: TilePos| #[trigger] v@.contains(p) <==> tiles@.contains((p, false)) by {
        if v@.contains(p) {
            let k = choose|k: int| 0 <= k < v@.len() && v@[k] == p;
            let j = choose|j: int| 0 <= j < tiles@.len() && #[trigger] tiles@[j] == (v@[k], false);
            assert(tiles@[j] == (p, false));
        }
        if tiles@.contains((p, false)) {
            let j = choose|j: int| 0 <= j < tiles@.len() && tiles@[j] == (p, false);
            assert(!tiles@[j].1);
            assert(v@.contains(tiles@[j].0));
        }
    }
    v
}

/// Chooses the starting tiles of the organisms among the tiles whose terrain
/// is not impassable ([`passable_positions`]), at random and without
/// repetition, and hands them out as [`split_organism_positions`] does. There
/// must be a passable tile for every organism.
///
/// Each kind gets as many tiles as it has organisms, every tile is one of
/// `tiles` whose terrain is not impassable, and when the positions of `tiles`
/// are distinct no tile is given twice.
pub fn generate_organism_positions(
    tiles: &Vec<(TilePos, bool)>,
    counts: &OrganismCounts,
    rng: &mut rand::rngs::ThreadRng,
) -> (r: OrganismPositions)
    requires
        counts.total() <= tiles@.filter(|t: (TilePos, bool)| !t.1).len(),
    ensures
        r.ants@.len() == counts.n_ant,
        r.plants@.len() == counts.n_plant,
        r.fungi@.len() == counts.n_fungi,
        r.hives@.len() == counts.n_hive,
        ({
            let all = r.hives@ + r.fungi@ + r.plants@ + r.ants@;
            &&& forall|p: TilePos| #[trigger] all.contains(p) ==> tiles@.contains((p, false))
            &&& tiles@.map_values(|t: (TilePos, bool)| t.0).no_duplicates() ==> all.no_duplicates()
        }),
{
    let possible_positions = passable_positions(tiles);
    proof {
        assert(possible_positions@.len() == tiles@.filter(|t: (TilePos, bool)| !t.1).len());
    }
    let available = possible_positions.len();
    assert(counts.total() <= available);
    let n_entities = counts.n_entities();
    let chosen = choose_multiple(rng, &possible_positions, n_entities);
    let ghost c = chosen@;
    let ghost idx = choose|idx: Seq<int>| picked_from(chosen@, possible_positions@, idx);
    let r = split_organism_positions(chosen, counts);
    proof {
        let n = c.len() as int;
        let h = n - counts.total();
        let all = r.hives@ + r.fungi@ + r.plants@ + r.ants@;
        assert(all =~= c.subrange(h, n));
        assert(h == 0);
        assert(all =~= c);
        assert forall|p: TilePos| #[trigger] all.contains(p) implies tiles@.contains((p, false)) by {
            let i = choose|i: int| 0 <= i < all.len() && all[i] == p;
            assert(possible_positions@[idx[i]] == p);
            assert(possible_positions@.contains(p));
        }
        if tiles@.map_values(|t: (TilePos, bool)| t.0).no_duplicates() {
            assert forall|i: int, j: int| 0 <= i < all.len() && 0 <= j < all.len() && i != j implies all[i]
                != all[j] by {
                assert(idx[i] != idx[j]);
            }
        }
    }
    r
}

} // verus!
