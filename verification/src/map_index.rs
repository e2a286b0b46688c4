//! Data tied to every tile of the map, with hex patches of neighbouring data.
//!
//! A [`MapIndex`] stores one [`MapData`] per tile. For each tile of its
//! template it also records which of the seven tiles of the surrounding hex
//! patch hold data; [`MapIndex::get_patch`] reads those tiles from the storage,
//! so a patch always shows the data as it currently stands.

use crate::collections::{TileMap, TileSet};
use crate::geometry::{law_n_positions_counts_tiles, MapGeometry};
use crate::hex_patch::{
    lemma_patch_locations, patch_locations, patch_tile, HexPatch, HexPatchLocation, HexRowDirection,
};
use crate::hexx_ops::{hexagon, hexagon_fits, in_hexagon, ordered_by_x_then_y};
use crate::map_data::MapData;
use crate::neighbors::HexNeighbors;
use crate::tile::{abs_int, TilePos};
use vstd::prelude::*;

verus! {

/// The map that a list of `(position, value)` pairs describes: each position
/// holds the value of the last pair that names it.
pub open spec fn pairs_map<T>(s: Seq<(TilePos, T)>) -> Map<TilePos, T>
    decreases s.len(),
{
    if s.len() == 0 {
        Map::empty()
    } else {
        let rest = pairs_map(s.drop_first());
        if rest.contains_key(s[0].0) {
            rest
        } else {
            rest.insert(s[0].0, s[0].1)
        }
    }
}

/// `m` after writing the pairs of `s` in order, where only positions that `m`
/// already has are written.
pub open spec fn updated<T>(m: Map<TilePos, T>, s: Seq<(TilePos, T)>) -> Map<TilePos, T> {
    m.union_prefer_right(pairs_map(s).restrict(m.dom()))
}

/// The data held by each [`MapData`] of `m`.
pub open spec fn data_of<T>(m: Map<TilePos, MapData<T>>) -> Map<TilePos, T> {
    m.map_values(|d: MapData<T>| d@)
}

/// Every tile within `radius` of the origin of a map whose hexagon `hexx` can
/// enumerate has neighbours with negatable cubic coordinates.
pub proof fn lemma_hexagon_tiles_fit(p: TilePos, radius: u32)
    requires
        hexagon_fits(TilePos::spec_zero(), radius),
        in_hexagon(p, TilePos::spec_zero(), radius as int),
    ensures
        p.neighbors_fit(),
{
    assert(radius < 40000) by (nonlinear_arith)
        requires
            3 * radius * (radius + 1) + 1 <= u32::MAX,
    ;
    assert(abs_int(p.x as int) <= radius);
    assert(abs_int(p.y as int) <= radius);
    assert(abs_int(p.x + p.y) <= radius);
}

/// The tile positions of a map of fixed size, cached.
#[derive(Debug)]
pub struct MapPositions {
    /// Number of positions that are expected given the size of the hexagonal map
    n_positions: usize,
    /// Vector of positions that exist in the map
    positions: Vec<TilePos>,
}

impl MapPositions {
    /// No position is listed twice, and every listed position has neighbours
    /// with `i32` coordinates.
    #[verifier::type_invariant]
    spec fn inv(self) -> bool {
        &&& self.positions@.no_duplicates()
        &&& forall|i: int| 0 <= i < self.positions@.len() ==> #[trigger] self.positions@[i].neighbors_fit()
    }

    /// The positions, in the order in which they are listed.
    pub closed spec fn position_seq(&self) -> Seq<TilePos> {
        self.positions@
    }

    /// The number of positions that the map is expected to hold.
    pub closed spec fn spec_n_positions(&self) -> usize {
        self.n_positions
    }

    /// Is `p` one of the positions?
    pub open spec fn contains(&self, p: TilePos) -> bool {
        self.position_seq().contains(p)
    }

    /// Creates map positions for a hexagonal map specified by the given [`MapGeometry`]:
    /// every tile within the map's radius of its center, each once.
    pub fn new(map_geometry: &MapGeometry) -> (r: MapPositions)
        requires
            hexagon_fits(TilePos::spec_zero(), map_geometry.spec_radius()),
        ensures
            r.position_seq().no_duplicates(),
            ordered_by_x_then_y(r.position_seq()),
            forall|p: TilePos| #[trigger]
                r.contains(p) <==> in_hexagon(p, TilePos::spec_zero(), map_geometry.spec_radius() as int),
            r.spec_n_positions() == 1 + 6 * ((map_geometry.spec_radius() * (
            map_geometry.spec_radius() + 1)) / 2),
            r.position_seq().len() == r.spec_n_positions(),
    {
        let radius = map_geometry.radius();
        proof {
            law_n_positions_counts_tiles(radius as int);
            assert(radius * (radius + 1) <= u32::MAX) by (nonlinear_arith)
                requires
                    3 * radius * (radius + 1) + 1 <= u32::MAX,
            ;
        }
        let n_positions = map_geometry.n_positions();
        let center = map_geometry.center();
        let positions = hexagon(center, radius);
        proof {
            assert forall|i: int| 0 <= i < positions@.len() implies #[trigger] positions@[i].neighbors_fit() by {
                assert(positions@.contains(positions@[i]));
                lemma_hexagon_tiles_fit(positions@[i], radius);
            }
        }
        MapPositions { n_positions, positions }
    }

    /// The positions, in order.
    pub fn iter_positions(&self) -> (v: &Vec<TilePos>)
        ensures
            v@ == self.position_seq(),
    {
        &self.positions
    }

    /// Get the number of positions that are managed by this structure
    pub fn n_positions(&self) -> (n: usize)
        ensures
            n == self.spec_n_positions(),
    {
        self.n_positions
    }

    /// Is `p` one of the positions?
    pub fn contains_position(&self, p: &TilePos) -> (b: bool)
        ensures
            b == self.contains(*p),
    {
        let mut i: usize = 0;
        while i < self.positions.len()
            invariant
                i <= self.positions@.len(),
                forall|j: int| 0 <= j < i ==> self.positions@[j] != *p,
            decreases self.positions@.len() - i,
        {
            if self.positions[i] == *p {
                return true;
            }
            i = i + 1;
        }
        false
    }

    /// The hex patch of positions around `position`, holding each of the seven
    /// tiles that is itself one of the positions; `None` when `position` is not.
    pub fn get_patch(&self, position: &TilePos) -> (r: Option<HexPatch<TilePos>>)
        ensures
            r is Some <==> self.contains(*position),
            r matches Some(patch) ==> forall|loc: HexPatchLocation| #[trigger]
                patch.at(loc) == (if self.contains(patch_tile(*position, loc)) {
                    Some(patch_tile(*position, loc))
                } else {
                    None
                }),
    {
        proof {
            use_type_invariant(self);
        }
        if !self.contains_position(position) {
            return None;
        }
        let center = *position;
        let mut result: HexPatch<TilePos> = HexPatch::empty();
        let locations = HexPatchLocation::variants();
        let mut i: usize = 0;
        while i < locations.len()
            invariant
                i <= locations@.len(),
                locations@ == patch_locations(),
                center.neighbors_fit(),
                forall|j: int|
                    0 <= j < i ==> #[trigger] result.at(locations@[j]) == (if self.contains(
                        patch_tile(center, locations@[j]),
                    ) {
                        Some(patch_tile(center, locations@[j]))
                    } else {
                        None
                    }),
            decreases locations@.len() - i,
        {
            let location = locations[i];
            let tile_pos = match location.as_hex_row_direction() {
                None => center,
                Some(row_direction) => center.neighbor(row_direction.direction()),
            };
            let value = if self.contains_position(&tile_pos) {
                Some(tile_pos)
            } else {
                None
            };
            *(result.get_mut(location)) = value;
            proof {
                lemma_patch_locations(location);
                assert forall|j: int| 0 <= j < 7 && j != i implies locations@[j] != location by {}
            }
            i = i + 1;
        }
        proof {
            assert forall|loc: HexPatchLocation| #[trigger] result.at(loc) == (if self.contains(
                patch_tile(center, loc),
            ) {
                Some(patch_tile(center, loc))
            } else {
                None
            }) by {
                lemma_patch_locations(loc);
                let j = choose|j: int| 0 <= j < 7 && locations@[j] == loc;
            }
        }
        Some(result)
    }
}

impl Default for MapPositions {
    fn default() -> (r: MapPositions)
        ensures
            r.position_seq() == Seq::<TilePos>::empty(),
            r.spec_n_positions() == 0,
    {
        MapPositions { n_positions: 0, positions: Vec::new() }
    }
}

/// An acceleration data structure for looking up game data that is tied to a
/// fixed [`TilePos`].
///
/// It can give you [`MapData<T>`](MapData) at a given tile position, or a
/// [`HexPatch`] of the data around a given position.
#[derive(Debug)]
pub struct MapIndex<T> {
    /// Primary internal storage of data associated with each position
    storage: TileMap<MapData<T>>,
    /// For each position of the template, the tiles of its hex patch that
    /// hold data in `storage`
    patches: TileMap<HexPatch<TilePos>>,
}

/// Boolean valued map indexes are useful as filters.
pub type MapFilter = MapIndex<bool>;

/// A map index holding a resource of the game at each tile.
pub type MapResource<T> = MapIndex<T>;

/// `layout` holds a patch for exactly the positions of `template`, and the
/// patch of position `c` holds each tile around `c` that is in `template` and
/// in `stored`.
pub open spec fn layout_matches(
    layout: Map<TilePos, HexPatch<TilePos>>,
    template: &MapPositions,
    stored: Set<TilePos>,
) -> bool {
    &&& forall|c: TilePos| #[trigger] layout.contains_key(c) <==> template.contains(c)
    &&& forall|c: TilePos, loc: HexPatchLocation|
        #![trigger layout[c].at(loc)]
        template.contains(c) ==> layout[c].at(loc) == (if template.contains(patch_tile(c, loc))
            && stored.contains(patch_tile(c, loc)) {
            Some(patch_tile(c, loc))
        } else {
            None
        })
}

impl<T> MapIndex<T> {
    /// Internal consistency: every tile named by a patch is the tile at that
    /// location of the patch, and holds data.
    pub closed spec fn wf(&self) -> bool {
        &&& self.storage.wf()
        &&& self.patches.wf()
        &&& forall|c: TilePos, loc: HexPatchLocation|
            #![trigger self.patches@[c].at(loc)]
            self.patches@.contains_key(c) && self.patches@[c].at(loc) is Some ==> {
                &&& self.patches@[c].at(loc)->0 == patch_tile(c, loc)
                &&& self.storage@.contains_key(patch_tile(c, loc))
            }
    }

    /// The data stored at each position.
    pub closed spec fn data(&self) -> Map<TilePos, T> {
        data_of(self.storage@)
    }

    /// For each position with a patch, the tiles of its patch that hold data.
    pub closed spec fn layout(&self) -> Map<TilePos, HexPatch<TilePos>> {
        self.patches@
    }

    /// The positions in the order in which [`MapIndex::positions`] lists them.
    pub closed spec fn position_seq(&self) -> Seq<TilePos> {
        self.storage.key_seq()
    }

    /// The data that the patch around `c` shows at `loc`, if any.
    pub open spec fn patch_data(&self, c: TilePos, loc: HexPatchLocation) -> Option<T> {
        if self.layout().contains_key(c) && self.layout()[c].at(loc) is Some {
            Some(self.data()[patch_tile(c, loc)])
        } else {
            None
        }
    }

    /// Generate the storage: each position holds the value of the last pair
    /// in `data` that names it.
    pub fn generate_storage(template: &MapPositions, data: Vec<(TilePos, T)>) -> (storage: TileMap<
        MapData<T>,
    >)
        ensures
            storage.wf(),
            data_of(storage@) == pairs_map(data@),
    {
        let ghost s = data@;
        let mut data = data;
        let mut storage: TileMap<MapData<T>> = TileMap::new();
        assert(s.subrange(s.len() as int, s.len() as int) =~= Seq::<(TilePos, T)>::empty());
        assert(data_of(storage@) =~= Map::<TilePos, T>::empty());
        while data.len() > 0
            invariant
                storage.wf(),
                data@.len() <= s.len(),
                data@ == s.subrange(0, data@.len() as int),
                data_of(storage@) == pairs_map(s.subrange(data@.len() as int, s.len() as int)),
            decreases data@.len(),
        {
            let ghost i = data@.len() as int;
            let ghost before = storage@;
            let (position, value) = data.pop().unwrap();
            assert(s.subrange(i - 1, s.len() as int).drop_first() =~= s.subrange(i, s.len() as int));
            assert(s.subrange(i - 1, s.len() as int)[0] == s[i - 1]);
            assert(data@ =~= s.subrange(0, i - 1));
            if !storage.contains_key(&position) {
                storage.insert(position, MapData::new(value));
                assert(data_of(storage@) =~= data_of(before).insert(position, value));
            }
        }
        storage
    }

    /// The patch layout of `template` over `storage`: the patch of each
    /// template position holds the tiles around it that are in the template
    /// and in the storage.
    pub fn generate_patches(storage: &TileMap<MapData<T>>, template: &MapPositions) -> (patches:
        TileMap<HexPatch<TilePos>>)
        requires
            storage.wf(),
        ensures
            patches.wf(),
            layout_matches(patches@, template, storage@.dom()),
    {
        let mut patches: TileMap<HexPatch<TilePos>> = TileMap::new();
        let positions = template.iter_positions();
        let mut i: usize = 0;
        while i < positions.len()
            invariant
                storage.wf(),
                patches.wf(),
                i <= positions@.len(),
                positions@ == template.position_seq(),
                forall|c: TilePos| #[trigger]
                    patches@.contains_key(c) <==> positions@.subrange(0, i as int).contains(c),
                forall|c: TilePos, loc: HexPatchLocation|
                    #![trigger patches@[c].at(loc)]
                    patches@.contains_key(c) ==> patches@[c].at(loc) == (if template.contains(
                        patch_tile(c, loc),
                    ) && storage@.dom().contains(patch_tile(c, loc)) {
                        Some(patch_tile(c, loc))
                    } else {
                        None
                    }),
            decreases positions@.len() - i,
        {
            let position = positions[i];
            assert(template.contains(position));
            let tile_patch = template.get_patch(&position).unwrap();
            let data_patch = Self::restrict_patch(&tile_patch, storage);
            patches.insert(position, data_patch);
            assert forall|c: TilePos| #[trigger] patches@.contains_key(c) <==> positions@.subrange(
                0,
                i + 1,
            ).contains(c) by {
                assert(positions@.subrange(0, i + 1) =~= positions@.subrange(0, i as int).push(
                    position,
                ));
                vstd::seq_lib::lemma_seq_contains_after_push(
                    positions@.subrange(0, i as int),
                    position,
                    c,
                );
            }
            i = i + 1;
        }
        proof {
            assert(positions@.subrange(0, positions@.len() as int) =~= positions@);
        }
        patches
    }

    /// `patch` with only the tiles that hold data in `storage`.
    fn restrict_patch(patch: &HexPatch<TilePos>, storage: &TileMap<MapData<T>>) -> (r: HexPatch<
        TilePos,
    >)
        requires
            storage.wf(),
        ensures
            forall|loc: HexPatchLocation| #[trigger]
                r.at(loc) == (match patch.at(loc) {
                    Some(p) => if storage@.contains_key(p) {
                        Some(p)
                    } else {
                        None
                    },
                    None => None,
                }),
    {
        let mut result: HexPatch<TilePos> = HexPatch::empty();
        let locations = HexPatchLocation::variants();
        let mut i: usize = 0;
        while i < locations.len()
            invariant
                storage.wf(),
                i <= locations@.len(),
                locations@ == patch_locations(),
                forall|j: int|
                    0 <= j < i ==> #[trigger] result.at(locations@[j]) == (match patch.at(
                        locations@[j],
                    ) {
                        Some(p) => if storage@.contains_key(p) {
                            Some(p)
                        } else {
                            None
                        },
                        None => None,
                    }),
            decreases locations@.len() - i,
        {
            let location = locations[i];
            let value = match patch.get(location) {
                Some(p) => if storage.contains_key(p) {
                    Some(*p)
                } else {
                    None
                },
                None => None,
            };
            *(result.get_mut(location)) = value;
            proof {
                lemma_patch_locations(location);
                assert forall|j: int| 0 <= j < 7 && j != i implies locations@[j] != location by {}
            }
            i = i + 1;
        }
        proof {
            assert forall|loc: HexPatchLocation| #[trigger] result.at(loc) == (match patch.at(loc) {
                Some(p) => if storage@.contains_key(p) {
                    Some(p)
                } else {
                    None
                },
                None => None,
            }) by {
                lemma_patch_locations(loc);
                let j = choose|j: int| 0 <= j < 7 && locations@[j] == loc;
            }
        }
        result
    }
}

impl<T> MapIndex<T> {
    /// A storage and a patch layout built over it form a consistent index.
    proof fn lemma_assembled(storage: TileMap<MapData<T>>, patches: TileMap<HexPatch<TilePos>>, template: &MapPositions)
        requires
            storage.wf(),
            patches.wf(),
            layout_matches(patches@, template, storage@.dom()),
        ensures
            (MapIndex { storage, patches }).wf(),
    {
        assert forall|c: TilePos, loc: HexPatchLocation|
            patches@.contains_key(c) && #[trigger] patches@[c].at(loc) is Some implies {
                &&& patches@[c].at(loc)->0 == patch_tile(c, loc)
                &&& storage@.contains_key(patch_tile(c, loc))
            } by {
            assert(template.contains(c));
        }
    }

    /// Create new from an underlying [`MapPositions`] template: each position
    /// holds the value of the last pair in `data` that names it, and each
    /// template position gets a patch of the tiles around it that are in the
    /// template and hold data.
    pub fn new(template: &MapPositions, data: Vec<(TilePos, T)>) -> (r: MapIndex<T>)
        ensures
            r.wf(),
            r.data() == pairs_map(data@),
            layout_matches(r.layout(), template, pairs_map(data@).dom()),
    {
        let storage = Self::generate_storage(template, data);
        let patches = Self::generate_patches(&storage, template);
        proof {
            Self::lemma_assembled(storage, patches, template);
        }
        MapIndex { storage, patches }
    }

    /// Update data for given tile positions: the pairs are written in order,
    /// and pairs naming a position without data are skipped.
    pub fn update(&mut self, new_data: Vec<(TilePos, T)>)
        requires
            old(self).wf(),
        ensures
            final(self).wf(),
            final(self).data() == updated(old(self).data(), new_data@),
            final(self).layout() == old(self).layout(),
    {
        let ghost s = new_data@;
        let ghost m0 = self.data();
        let mut new_data = new_data;
        let mut seen: TileSet = TileSet::new();
        assert(s.subrange(s.len() as int, s.len() as int) =~= Seq::<(TilePos, T)>::empty());
        assert(updated(m0, Seq::<(TilePos, T)>::empty()) =~= m0);
        while new_data.len() > 0
            invariant
                self.wf(),
                self.layout() == old(self).layout(),
                m0 == old(self).data(),
                seen.wf(),
                new_data@.len() <= s.len(),
                new_data@ == s.subrange(0, new_data@.len() as int),
                self.data() == updated(m0, s.subrange(new_data@.len() as int, s.len() as int)),
                seen@ == pairs_map(s.subrange(new_data@.len() as int, s.len() as int)).dom(),
                self.data().dom() == m0.dom(),
            decreases new_data@.len(),
        {
            let ghost i = new_data@.len() as int;
            let ghost before = self.storage@;
            let ghost rest = s.subrange(i, s.len() as int);
            let (position, value) = new_data.pop().unwrap();
            assert(s.subrange(i - 1, s.len() as int).drop_first() =~= rest);
            assert(s.subrange(i - 1, s.len() as int)[0] == s[i - 1]);
            assert(new_data@ =~= s.subrange(0, i - 1));
            if !seen.contains(&position) {
                seen.insert(position);
                assert(seen@ =~= pairs_map(s.subrange(i - 1, s.len() as int)).dom());
                if self.storage.contains_key(&position) {
                    self.storage.insert(position, MapData::new(value));
                    assert(data_of(self.storage@) =~= data_of(before).insert(position, value));
                    assert(self.data() =~= updated(m0, s.subrange(i - 1, s.len() as int)));
                } else {
                    assert(self.data() =~= updated(m0, s.subrange(i - 1, s.len() as int)));
                }
            }
        }
        assert(s.subrange(0, s.len() as int) =~= s);
    }

    /// Replace data at the specified position, which must hold data.
    pub fn replace(&mut self, position: &TilePos, replace_with: T)
        requires
            old(self).wf(),
            old(self).data().contains_key(*position),
        ensures
            final(self).wf(),
            final(self).data() == old(self).data().insert(*position, replace_with),
            final(self).layout() == old(self).layout(),
    {
        let ghost before = self.storage@;
        self.storage.insert(*position, MapData::new(replace_with));
        assert(data_of(self.storage@) =~= data_of(before).insert(*position, replace_with));
    }

    /// Get data stored at `position`.
    pub fn get(&self, position: &TilePos) -> (r: Option<&MapData<T>>)
        requires
            self.wf(),
        ensures
            r is Some <==> self.data().contains_key(*position),
            r matches Some(d) ==> d@ == self.data()[*position],
    {
        self.storage.get(position)
    }

    /// Get mutable access to data stored at `position`.
    pub fn get_mut(&mut self, position: &TilePos) -> (r: Option<&mut MapData<T>>)
        requires
            old(self).wf(),
        ensures
            final(self).wf(),
            final(self).layout() == old(self).layout(),
            match r {
                Some(d) => old(self).data().contains_key(*position) && d@ == old(self).data()[*position]
                    && final(self).data() == old(self).data().insert(*position, final(d)@),
                None => !old(self).data().contains_key(*position) && final(self).data() == old(self).data(),
            },
    {
        let ghost before = self.storage@;
        let r = self.storage.get_mut(position);
        match r {
            Some(d) => {
                assert(data_of(before.insert(*position, *final(d))) =~= data_of(before).insert(*position, final(d)@));
                Some(d)
            },
            None => None,
        }
    }

    /// The positions managed by this index, each once.
    pub fn positions(&self) -> (v: Vec<TilePos>)
        requires
            self.wf(),
        ensures
            v@ == self.position_seq(),
            v@.no_duplicates(),
            v@.to_set() == self.data().dom(),
    {
        self.storage.keys()
    }

    /// The data stored at each position, in the order of [`MapIndex::positions`].
    pub fn values(&self) -> (v: Vec<&MapData<T>>)
        requires
            self.wf(),
        ensures
            v@.len() == self.position_seq().len(),
            forall|i: int| 0 <= i < v@.len() ==> v@[i]@ == self.data()[#[trigger] self.position_seq()[i]],
    {
        let v = self.storage.values();
        proof {
            let ks = self.storage.key_seq();
            assert forall|i: int| 0 <= i < v@.len() implies v@[i]@ == self.data()[#[trigger] self.position_seq()[i]] by {
                assert(*v@[i] == self.storage@[ks[i]]);
            }
        }
        v
    }
}

/// A position holds data in [`pairs_map`] exactly when some pair names it, and
/// then its value is the value of a pair that names it.
pub proof fn lemma_pairs_map<T>(s: Seq<(TilePos, T)>)
    ensures
        forall|k: TilePos| #[trigger]
            pairs_map(s).contains_key(k) <==> exists|i: int| 0 <= i < s.len() && s[i].0 == k,
        forall|k: TilePos| #[trigger]
            pairs_map(s).contains_key(k) ==> exists|i: int|
                0 <= i < s.len() && s[i] == (k, pairs_map(s)[k]),
    decreases s.len(),
{
    if s.len() > 0 {
        let t = s.drop_first();
        lemma_pairs_map(t);
        assert forall|k: TilePos| (exists|i: int| 0 <= i < s.len() && s[i].0 == k) implies #[trigger]
            pairs_map(s).contains_key(k) by {
            let i = choose|i: int| 0 <= i < s.len() && s[i].0 == k;
            if i > 0 {
                assert(t[i - 1].0 == k);
                assert(pairs_map(t).contains_key(k));
            }
        }
        assert forall|k: TilePos| #[trigger] pairs_map(s).contains_key(k) implies exists|i: int|
            0 <= i < s.len() && s[i].0 == k by {
            if pairs_map(t).contains_key(k) {
                let j = choose|j: int| 0 <= j < t.len() && t[j].0 == k;
                assert(s[j + 1].0 == k);
            } else {
                assert(s[0].0 == k);
            }
        }
        assert forall|k: TilePos| #[trigger] pairs_map(s).contains_key(k) implies exists|i: int|
            0 <= i < s.len() && s[i] == (k, pairs_map(s)[k]) by {
            if pairs_map(t).contains_key(k) {
                let j = choose|j: int| 0 <= j < t.len() && t[j] == (k, pairs_map(t)[k]);
                assert(s[j + 1] == (k, pairs_map(s)[k]));
            } else {
                assert(s[0] == (k, pairs_map(s)[k]));
            }
        }
    }
}

impl<T: Copy> MapIndex<T> {
    /// The [`HexPatch`] of the data around `position`, read from the storage
    /// as it currently stands; `None` when `position` has no patch.
    pub fn get_patch(&self, position: &TilePos) -> (r: Option<HexPatch<MapData<T>>>)
        requires
            self.wf(),
        ensures
            r is Some <==> self.layout().contains_key(*position),
            r matches Some(patch) ==> forall|loc: HexPatchLocation| #[trigger]
                self.patch_data(*position, loc) == (match patch.at(loc) {
                    Some(d) => Some(d@),
                    None => None,
                }),
    {
        let layout_patch = match self.patches.get(position) {
            Some(p) => p,
            None => {
                return None;
            },
        };
        let mut result: HexPatch<MapData<T>> = HexPatch::empty();
        let locations = HexPatchLocation::variants();
        let mut i: usize = 0;
        while i < locations.len()
            invariant
                self.wf(),
                self.patches@.contains_key(*position),
                *layout_patch == self.patches@[*position],
                i <= locations@.len(),
                locations@ == patch_locations(),
                forall|j: int|
                    0 <= j < i ==> self.patch_data(*position, #[trigger] locations@[j]) == (match result.at(
                        locations@[j],
                    ) {
                        Some(d) => Some(d@),
                        None => None,
                    }),
            decreases locations@.len() - i,
        {
            let location = locations[i];
            let value = match layout_patch.get(location) {
                Some(tile) => {
                    assert(self.patches@[*position].at(location) is Some);
                    let d = self.storage.get(tile).unwrap();
                    Some(MapData::new(*d.read()))
                },
                None => None,
            };
            *(result.get_mut(location)) = value;
            proof {
                lemma_patch_locations(location);
                assert forall|j: int| 0 <= j < 7 && j != i implies locations@[j] != location by {}
            }
            i = i + 1;
        }
        proof {
            assert forall|loc: HexPatchLocation| #[trigger]
                self.patch_data(*position, loc) == (match result.at(loc) {
                    Some(d) => Some(d@),
                    None => None,
                }) by {
                lemma_patch_locations(loc);
                let j = choose|j: int| 0 <= j < 7 && locations@[j] == loc;
            }
        }
        Some(result)
    }
}

impl<T: Default> MapIndex<T> {
    /// Create new from an underlying [`MapPositions`] template, with the
    /// default value of `T` at every template position.
    pub fn default_from_template(template: &MapPositions) -> (r: MapIndex<T>)
        ensures
            r.wf(),
            forall|p: TilePos| #[trigger] r.data().contains_key(p) <==> template.contains(p),
            forall|p: TilePos| #[trigger]
                r.data().contains_key(p) ==> call_ensures(T::default, (), r.data()[p]),
            layout_matches(r.layout(), template, template.position_seq().to_set()),
    {
        let positions = template.iter_positions();
        let mut data: Vec<(TilePos, T)> = Vec::new();
        let mut i: usize = 0;
        while i < positions.len()
            invariant
                i <= positions@.len(),
                data@.len() == i,
                forall|j: int|
                    0 <= j < i ==> (#[trigger] data@[j]).0 == positions@[j] && call_ensures(
                        T::default,
                        (),
                        data@[j].1,
                    ),
            decreases positions@.len() - i,
        {
            let value = T::default();
            data.push((positions[i], value));
            i = i + 1;
        }
        let ghost s = data@;
        let r = Self::new(template, data);
        proof {
            lemma_pairs_map(s);
            assert forall|p: TilePos| #[trigger] r.data().contains_key(p) <==> template.contains(p) by {
                if template.contains(p) {
                    let j = choose|j: int| 0 <= j < positions@.len() && positions@[j] == p;
                    assert(s[j].0 == p);
                }
            }
            assert forall|p: TilePos| #[trigger] r.data().contains_key(p) implies call_ensures(
                T::default,
                (),
                r.data()[p],
            ) by {
                let j = choose|j: int| 0 <= j < s.len() && s[j] == (p, pairs_map(s)[p]);
            }
            assert(pairs_map(s).dom() =~= template.position_seq().to_set());
        }
        r
    }
}

impl MapIndex<bool> {
    /// Create new from an underlying [`MapPositions`] template: every template
    /// position holds `default`, then the pairs of `data` are written in order
    /// (pairs naming a position outside the template are skipped).
    pub fn new_with_default(default: bool, template: &MapPositions, data: Vec<(TilePos, bool)>) -> (r:
        MapIndex<bool>)
        ensures
            r.wf(),
            r.data() == updated(Map::new(|p: TilePos| template.contains(p), |p: TilePos| default), data@),
            layout_matches(r.layout(), template, template.position_seq().to_set()),
    {
        let positions = template.iter_positions();
        let mut initial: Vec<(TilePos, bool)> = Vec::new();
        let mut i: usize = 0;
        while i < positions.len()
            invariant
                i <= positions@.len(),
                initial@.len() == i,
                forall|j: int| 0 <= j < i ==> #[trigger] initial@[j] == (positions@[j], default),
            decreases positions@.len() - i,
        {
            initial.push((positions[i], default));
            i = i + 1;
        }
        let ghost s = initial@;
        let mut r = Self::new(template, initial);
        proof {
            lemma_pairs_map(s);
            assert forall|p: TilePos| #[trigger] r.data().contains_key(p) <==> template.contains(p) by {
                if template.contains(p) {
                    let j = choose|j: int| 0 <= j < positions@.len() && positions@[j] == p;
                    assert(s[j].0 == p);
                }
            }
            assert forall|p: TilePos| #[trigger] r.data().contains_key(p) implies r.data()[p] == default by {
                let j = choose|j: int| 0 <= j < s.len() && s[j] == (p, pairs_map(s)[p]);
            }
            assert(r.data() =~= Map::new(|p: TilePos| template.contains(p), |p: TilePos| default));
            assert(pairs_map(s).dom() =~= template.position_seq().to_set());
        }
        r.update(data);
        r
    }
}

/// A write is seen by every patch that covers the written tile, and by no
/// other location: after the data at `p` becomes `v` with the patch layout
/// unchanged (as [`MapIndex::replace`], [`MapIndex::update`] and
/// [`MapIndex::get_mut`] leave it), each patch location over `p` shows `v` and
/// every other location shows what it showed before.
pub proof fn law_write_seen_by_patches<T>(
    before: &MapIndex<T>,
    after: &MapIndex<T>,
    p: TilePos,
    v: T,
    c: TilePos,
    loc: HexPatchLocation,
)
    requires
        after.data() == before.data().insert(p, v),
        after.layout() == before.layout(),
    ensures
        after.patch_data(c, loc) == (if before.patch_data(c, loc) is Some && patch_tile(c, loc) == p {
            Some(v)
        } else {
            before.patch_data(c, loc)
        }),
{
}

/// A patch location shows data exactly where the patch layout names a tile,
/// and the data it shows is the data stored at the tile of that location.
pub proof fn law_patch_reads_storage<T>(index: &MapIndex<T>, c: TilePos, loc: HexPatchLocation)
    requires
        index.wf(),
    ensures
        index.patch_data(c, loc) matches Some(x) ==> index.data().contains_key(patch_tile(c, loc))
            && x == index.data()[patch_tile(c, loc)],
        index.patch_data(c, loc) is Some <==> index.layout().contains_key(c) && index.layout()[c].at(
            loc,
        ) == Some(patch_tile(c, loc)),
{
    if index.layout().contains_key(c) && index.layout()[c].at(loc) is Some {
        assert(index.patches@[c].at(loc) is Some);
        assert(index.storage@.contains_key(patch_tile(c, loc)));
    }
}

/// Cached positions of the map, each with the tile positions of its
/// neighbours that lie on the map.
#[derive(Debug)]
pub struct MapPositionsCache {
    /// Map caching hex neighbors with each tile position
    map: TileMap<HexNeighbors<TilePos>>,
}

impl MapPositionsCache {
    /// Internal consistency of the cache.
    pub closed spec fn wf(&self) -> bool {
        self.map.wf()
    }

    /// The neighbours cached for each position.
    pub closed spec fn cached(&self) -> Map<TilePos, HexNeighbors<TilePos>> {
        self.map@
    }

    /// Populates the cache with every tile of the map, each with its
    /// neighbours that lie on the map.
    pub fn populate(map_geometry: &MapGeometry) -> (r: MapPositionsCache)
        requires
            hexagon_fits(TilePos::spec_zero(), map_geometry.spec_radius()),
        ensures
            r.wf(),
            forall|p: TilePos| #[trigger]
                r.cached().contains_key(p) <==> in_hexagon(
                    p,
                    TilePos::spec_zero(),
                    map_geometry.spec_radius() as int,
                ),
            forall|p: TilePos, d: HexRowDirection|
                #![trigger r.cached()[p].at(d)]
                r.cached().contains_key(p) ==> r.cached()[p].at(d) == (if map_geometry.spec_is_valid(
                    p.spec_neighbor(d.spec_direction()),
                ) {
                    Some(p.spec_neighbor(d.spec_direction()))
                } else {
                    None
                }),
    {
        let positions = hexagon(map_geometry.center(), map_geometry.radius());
        let mut map: TileMap<HexNeighbors<TilePos>> = TileMap::new();
        let mut i: usize = 0;
        while i < positions.len()
            invariant
                map.wf(),
                i <= positions@.len(),
                hexagon_fits(TilePos::spec_zero(), map_geometry.spec_radius()),
                forall|p: TilePos| #[trigger]
                    positions@.contains(p) <==> in_hexagon(
                        p,
                        TilePos::spec_zero(),
                        map_geometry.spec_radius() as int,
                    ),
                forall|p: TilePos| #[trigger]
                    map@.contains_key(p) <==> positions@.subrange(0, i as int).contains(p),
                forall|p: TilePos, d: HexRowDirection|
                    #![trigger map@[p].at(d)]
                    map@.contains_key(p) ==> map@[p].at(d) == (if map_geometry.spec_is_valid(
                        p.spec_neighbor(d.spec_direction()),
                    ) {
                        Some(p.spec_neighbor(d.spec_direction()))
                    } else {
                        None
                    }),
            decreases positions@.len() - i,
        {
            let tile_pos = positions[i];
            proof {
                assert(positions@.contains(tile_pos));
                lemma_hexagon_tiles_fit(tile_pos, map_geometry.spec_radius());
            }
            let neighbors = HexNeighbors::get_neighbors(&tile_pos, map_geometry);
            map.insert(tile_pos, neighbors);
            assert forall|p: TilePos| #[trigger] map@.contains_key(p) <==> positions@.subrange(
                0,
                i + 1,
            ).contains(p) by {
                assert(positions@.subrange(0, i + 1) =~= positions@.subrange(0, i as int).push(
                    tile_pos,
                ));
                vstd::seq_lib::lemma_seq_contains_after_push(
                    positions@.subrange(0, i as int),
                    tile_pos,
                    p,
                );
            }
            i = i + 1;
        }
        assert(positions@.subrange(0, positions@.len() as int) =~= positions@);
        MapPositionsCache { map }
    }

    /// All cached tile positions, each once.
    pub fn positions(&self) -> (v: Vec<TilePos>)
        requires
            self.wf(),
        ensures
            v@.no_duplicates(),
            v@.to_set() == self.cached().dom(),
    {
        self.map.keys()
    }

    /// Get neighbors associated with a given tile position, if it exists in the cache
    pub fn get_neighbors(&self, tile_pos: TilePos) -> (r: Option<&HexNeighbors<TilePos>>)
        requires
            self.wf(),
        ensures
            r == (if self.cached().contains_key(tile_pos) {
                Some(&self.cached()[tile_pos])
            } else {
                None
            }),
    {
        self.map.get(&tile_pos)
    }
}

impl Default for MapPositionsCache {
    fn default() -> (r: MapPositionsCache)
        ensures
            r.wf(),
            r.cached() == Map::<TilePos, HexNeighbors<TilePos>>::empty(),
    {
        MapPositionsCache { map: TileMap::new() }
    }
}

} // verus!
