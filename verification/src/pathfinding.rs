//! Which tiles units can cross, cached per tile and per hex patch.

use crate::collections::{has_key, TileSet};
use crate::hex_patch::{patch_tile, HexPatch, HexPatchLocation};
use crate::map_data::MapData;
use crate::map_index::{layout_matches, lemma_pairs_map, pairs_map, updated, MapFilter, MapPositions};
use crate::tile::TilePos;
use vstd::prelude::*;

verus! {

/// Marker specifying that an entity is impassable for pathfinding.
#[derive(Debug, Clone, Copy, Default)]
pub struct Impassable;

/// The passability map after the tiles of `previous` that are not in
/// `current` become passable and the tiles of `current` that are not in
/// `previous` become impassable; tiles without an entry are left out.
pub open spec fn after_impassable_change(
    passable: Map<TilePos, bool>,
    previous: Set<TilePos>,
    current: Set<TilePos>,
) -> Map<TilePos, bool> {
    passable.union_prefer_right(
        Map::new(
            |p: TilePos| passable.contains_key(p) && previous.contains(p) != current.contains(p),
            |p: TilePos| !current.contains(p),
        ),
    )
}

/// `passable` marks a tile passable exactly when it is not in `impassable`.
pub open spec fn tracks(passable: Map<TilePos, bool>, impassable: Set<TilePos>) -> bool {
    forall|p: TilePos| #[trigger] passable.contains_key(p) ==> passable[p] == !impassable.contains(p)
}

/// The pairs `(p, value)` for each tile `p` of `a` that is not in `b`, each once.
fn difference_updates(a: &TileSet, b: &TileSet, value: bool) -> (v: Vec<(TilePos, bool)>)
    requires
        a.wf(),
        b.wf(),
    ensures
        pairs_map(v@) == Map::new(|p: TilePos| a@.contains(p) && !b@.contains(p), |p: TilePos| value),
{
    let elements = a.to_vec();
    let mut v: Vec<(TilePos, bool)> = Vec::new();
    let mut i: usize = 0;
    while i < elements.len()
        invariant
            b.wf(),
            i <= elements@.len(),
            elements@.to_set() == a@,
            forall|j: int| 0 <= j < v@.len() ==> (#[trigger] v@[j]).1 == value,
            forall|q: TilePos| #[trigger]
                has_key(v@, q) <==> (elements@.subrange(0, i as int).contains(q) && !b@.contains(q)),
        decreases elements@.len() - i,
    {
        let p = elements[i];
        let ghost before = v@;
        let ghost pre = elements@.subrange(0, i as int);
        if !b.contains(&p) {
            v.push((p, value));
        }
        assert forall|q: TilePos| #[trigger]
            has_key(v@, q) <==> (elements@.subrange(0, i + 1).contains(q) && !b@.contains(q)) by {
            assert(elements@.subrange(0, i + 1) =~= pre.push(p));
            vstd::seq_lib::lemma_seq_contains_after_push(pre, p, q);
            if has_key(before, q) {
                let j = choose|j: int| 0 <= j < before.len() && before[j].0 == q;
                assert(v@[j].0 == q);
            }
            if has_key(v@, q) {
                let j = choose|j: int| 0 <= j < v@.len() && v@[j].0 == q;
                if j < before.len() {
                    assert(before[j].0 == q);
                    assert(has_key(before, q));
                }
            }
            if q == p && !b@.contains(q) {
                assert(v@[before.len() as int].0 == q);
            }
        }
        i = i + 1;
    }
    proof {
        assert(elements@.subrange(0, elements@.len() as int) =~= elements@);
        lemma_pairs_map(v@);
        assert forall|p: TilePos| #[trigger] pairs_map(v@).contains_key(p) <==> (a@.contains(p)
            && !b@.contains(p)) by {
            assert(has_key(v@, p) == pairs_map(v@).contains_key(p));
        }
        assert forall|p: TilePos| #[trigger] pairs_map(v@).contains_key(p) implies pairs_map(v@)[p]
            == value by {
            let j = choose|j: int| 0 <= j < v@.len() && v@[j] == (p, pairs_map(v@)[p]);
        }
        assert(pairs_map(v@) =~= Map::new(
            |p: TilePos| a@.contains(p) && !b@.contains(p),
            |p: TilePos| value,
        ));
    }
    v
}

/// Caches:
/// * `bool` indicating whether a given position is passable
/// * [`HexPatch<bool>`](HexPatch) indicating whether positions
/// in hex patch are passable for each position
#[derive(Debug)]
pub struct PassabilityCache {
    /// The [`MapFilter`] which caches whether a given position is passable,
    /// and its corresponding hex patch
    inner: MapFilter,
    /// Tile positions that were marked as impassable in the last
    /// [`update_from_impassable_query`](PassabilityCache::update_from_impassable_query) operation
    previously_impassable: TileSet,
}

impl PassabilityCache {
    /// Internal consistency of the filter and the set.
    pub closed spec fn wf(&self) -> bool {
        self.inner.wf() && self.previously_impassable.wf()
    }

    /// Whether each position is passable.
    pub closed spec fn passable(&self) -> Map<TilePos, bool> {
        self.inner.data()
    }

    /// The tiles of each position's patch that hold passability data.
    pub closed spec fn layout(&self) -> Map<TilePos, HexPatch<TilePos>> {
        self.inner.layout()
    }

    /// The tiles that were impassable at the last update.
    pub closed spec fn previously_impassable(&self) -> Set<TilePos> {
        self.previously_impassable@
    }

    /// What the patch around `c` shows at `loc`, if anything: the
    /// passability of the tile there, where the layout names one.
    pub open spec fn patch_passable(&self, c: TilePos, loc: HexPatchLocation) -> Option<bool> {
        if self.layout().contains_key(c) && self.layout()[c].at(loc) is Some {
            Some(self.passable()[patch_tile(c, loc)])
        } else {
            None
        }
    }

    /// Creates new [`PassabilityCache`]: every position of the template is
    /// passable, and no tile was impassable before.
    pub fn new(template: &MapPositions) -> (r: PassabilityCache)
        ensures
            r.wf(),
            r.passable() == Map::new(|p: TilePos| template.contains(p), |p: TilePos| true),
            r.previously_impassable() == Set::<TilePos>::empty(),
            layout_matches(r.layout(), template, template.position_seq().to_set()),
    {
        let inner = MapFilter::new_with_default(true, template, Vec::new());
        let r = PassabilityCache { inner, previously_impassable: TileSet::new() };
        assert(pairs_map(Seq::<(TilePos, bool)>::empty()) =~= Map::<TilePos, bool>::empty());
        assert(r.passable() =~= Map::new(|p: TilePos| template.contains(p), |p: TilePos| true));
        r
    }

    /// Get the passability of the hex patch around `tile_pos`, if it exists
    /// in the cache.
    pub fn get_patch(&self, tile_pos: &TilePos) -> (r: Option<HexPatch<MapData<bool>>>)
        requires
            self.wf(),
        ensures
            r is Some <==> self.layout().contains_key(*tile_pos),
            r matches Some(patch) ==> forall|loc: HexPatchLocation| #[trigger]
                self.patch_passable(*tile_pos, loc) == (match patch.at(loc) {
                    Some(d) => Some(d@),
                    None => None,
                }),
    {
        let r = self.inner.get_patch(tile_pos);
        assert forall|loc: HexPatchLocation| #[trigger]
            self.patch_passable(*tile_pos, loc) == self.inner.patch_data(*tile_pos, loc) by {}
        r
    }

    /// Update from the positions of all impassable entities: tiles that were
    /// impassable at the last update and are no longer become passable, new
    /// ones become impassable.
    pub fn update_from_impassable_query(&mut self, impassable: Vec<TilePos>)
        requires
            old(self).wf(),
        ensures
            final(self).wf(),
            final(self).passable() == after_impassable_change(
                old(self).passable(),
                old(self).previously_impassable(),
                impassable@.to_set(),
            ),
            final(self).previously_impassable() == impassable@.to_set(),
            final(self).layout() == old(self).layout(),
    {
        let ghost cur = impassable@.to_set();
        let ghost prev = self.previously_impassable@;
        let ghost m0 = self.inner.data();
        let currently_impassable = TileSet::from_vec(impassable);
        let update_to_passable = difference_updates(&self.previously_impassable, &currently_impassable, true);
        let update_to_impassable = difference_updates(&currently_impassable, &self.previously_impassable, false);
        self.inner.update(update_to_passable);
        let ghost m1 = self.inner.data();
        self.inner.update(update_to_impassable);
        assert(m1.dom() =~= m0.dom());
        assert(self.inner.data() =~= after_impassable_change(m0, prev, cur));
        self.previously_impassable = currently_impassable;
    }

    /// Update from newly impassable and newly passable positions: only the
    /// record of impassable tiles changes, to the old record without the
    /// newly passable tiles, together with the newly impassable ones.
    pub fn update_from_changed_passable_queries(
        &mut self,
        newly_impassable: Vec<TilePos>,
        newly_passable: Vec<TilePos>,
    )
        requires
            old(self).wf(),
        ensures
            final(self).wf(),
            final(self).previously_impassable() == old(self).previously_impassable().difference(
                newly_passable@.to_set(),
            ).union(newly_impassable@.to_set()),
            final(self).passable() == old(self).passable(),
            final(self).layout() == old(self).layout(),
    {
        let newly_impassable = TileSet::from_vec(newly_impassable);
        let newly_passable = TileSet::from_vec(newly_passable);
        let kept = self.previously_impassable.to_vec();
        let mut result = TileSet::new();
        let mut i: usize = 0;
        while i < kept.len()
            invariant
                newly_passable.wf(),
                result.wf(),
                i <= kept@.len(),
                result@ == kept@.subrange(0, i as int).to_set().difference(newly_passable@),
            decreases kept@.len() - i,
        {
            let p = kept[i];
            assert(kept@.subrange(0, i + 1) =~= kept@.subrange(0, i as int).push(p));
            proof {
                kept@.subrange(0, i as int).lemma_push_to_set_commute(p);
            }
            if !newly_passable.contains(&p) {
                result.insert(p);
            }
            assert(result@ =~= kept@.subrange(0, i + 1).to_set().difference(newly_passable@));
            i = i + 1;
        }
        assert(kept@.subrange(0, kept@.len() as int) =~= kept@);
        let added = newly_impassable.to_vec();
        let mut j: usize = 0;
        let ghost base = result@;
        while j < added.len()
            invariant
                result.wf(),
                j <= added@.len(),
                result@ == base.union(added@.subrange(0, j as int).to_set()),
            decreases added@.len() - j,
        {
            let p = added[j];
            assert(added@.subrange(0, j + 1) =~= added@.subrange(0, j as int).push(p));
            proof {
                added@.subrange(0, j as int).lemma_push_to_set_commute(p);
            }
            result.insert(p);
            assert(result@ =~= base.union(added@.subrange(0, j + 1).to_set()));
            j = j + 1;
        }
        assert(added@.subrange(0, added@.len() as int) =~= added@);
        self.previously_impassable = result;
    }
}

/// When the cache marks every tile passable exactly when it was not
/// impassable at the last update, an update from the current impassable tiles
/// leaves it marking every tile passable exactly when it is not currently
/// impassable.
pub proof fn law_passability_tracks_impassable(
    passable: Map<TilePos, bool>,
    previous: Set<TilePos>,
    current: Set<TilePos>,
)
    requires
        tracks(passable, previous),
    ensures
        tracks(after_impassable_change(passable, previous, current), current),
        after_impassable_change(passable, previous, current).dom() == passable.dom(),
{
    let after = after_impassable_change(passable, previous, current);
    assert(after.dom() =~= passable.dom());
    assert forall|p: TilePos| #[trigger] after.contains_key(p) implies after[p] == !current.contains(p) by {
        assert(passable.contains_key(p));
    }
}

} // verus!
