//! The set of tiles taken up by a structure.

use crate::collections::TileSet;
use crate::hexx_ops::{hexagon, hexagon_fits, in_hexagon};
use crate::tile::{Facing, TilePos};
use vstd::prelude::*;

verus! {

/// The set of tiles taken up by a structure.
///
/// Structures are always "centered" on 0, 0, so these coordinates are relative to that.
#[derive(Debug)]
pub struct Footprint {
    /// The set of tiles taken up by this structure.
    set: TileSet,
}

impl View for Footprint {
    type V = Set<TilePos>;

    closed spec fn view(&self) -> Set<TilePos> {
        self.set@
    }
}

/// The image of `tiles` shifted by `center`.
pub open spec fn shifted(tiles: Set<TilePos>, center: TilePos) -> Set<TilePos> {
    tiles.map(|p: TilePos| center.spec_add(p))
}

/// The image of `tiles` rotated to match `facing`.
pub open spec fn rotated_set(tiles: Set<TilePos>, facing: Facing) -> Set<TilePos> {
    tiles.map(|p: TilePos| p.spec_rotated(facing))
}

/// The tiles of a footprint after rotation by `facing` and a shift to `center`.
pub open spec fn normalized_set(tiles: Set<TilePos>, facing: Facing, center: TilePos) -> Set<
    TilePos,
> {
    shifted(rotated_set(tiles, facing), center)
}

/// Every tile of `tiles` can be rotated, and shifted to `center` afterwards,
/// without overflow.
pub open spec fn normalizable(tiles: Set<TilePos>, facing: Facing, center: TilePos) -> bool {
    forall|p: TilePos| #[trigger]
        tiles.contains(p) ==> p.cubic_fits() && center.add_fits(p.spec_rotated(facing))
}

/// Shifting `tiles` to `center` does not overflow.
pub open spec fn shiftable(tiles: Set<TilePos>, center: TilePos) -> bool {
    forall|p: TilePos| #[trigger] tiles.contains(p) ==> center.add_fits(p)
}

/// Builds the set `{ f(v[i]) }` one element at a time.
proof fn lemma_map_prefix(v: Seq<TilePos>, i: int, f: spec_fn(TilePos) -> TilePos)
    requires
        0 <= i < v.len(),
    ensures
        v.subrange(0, i + 1).to_set().map(f) == v.subrange(0, i).to_set().map(f).insert(f(v[i])),
{
    assert(v.subrange(0, i + 1) =~= v.subrange(0, i).push(v[i]));
    v.subrange(0, i).lemma_push_to_set_commute(v[i]);
    let a = v.subrange(0, i + 1).to_set().map(f);
    let b = v.subrange(0, i).to_set().map(f).insert(f(v[i]));
    let sa = v.subrange(0, i + 1).to_set();
    let sb = v.subrange(0, i).to_set();
    assert(sa == sb.insert(v[i]));
    assert forall|q: TilePos| a.contains(q) implies b.contains(q) by {
        let x = choose|x: TilePos| #[trigger] sa.contains(x) && q == f(x);
        if x != v[i] {
            assert(sb.contains(x));
            assert(sb.map(f).contains(f(x)));
        }
    }
    assert forall|q: TilePos| b.contains(q) implies a.contains(q) by {
        if q == f(v[i]) {
            assert(sa.contains(v[i]));
            assert(sa.map(f).contains(f(v[i])));
        } else {
            let x = choose|x: TilePos| #[trigger] sb.contains(x) && q == f(x);
            assert(sa.contains(x));
            assert(sa.map(f).contains(f(x)));
        }
    }
    assert(a =~= b);
}

impl Footprint {
    /// Internal consistency of the underlying set.
    #[verifier::type_invariant]
    closed spec fn wf(&self) -> bool {
        self.set.wf()
    }

    /// A footprint made of the given tiles; repeated tiles count once.
    pub fn from_tiles(tiles: Vec<TilePos>) -> (f: Footprint)
        ensures
            f@ == tiles@.to_set(),
    {
        Footprint { set: TileSet::from_vec(tiles) }
    }

    /// The tiles of this footprint, each once.
    pub fn tiles(&self) -> (v: Vec<TilePos>)
        ensures
            v@.no_duplicates(),
            v@.to_set() == self@,
    {
        proof {
            use_type_invariant(self);
        }
        self.set.to_vec()
    }

    /// A footprint that occupies a single tile.
    pub fn single() -> (f: Footprint)
        ensures
            f@ == set![TilePos::spec_zero()],
    {
        let mut set = TileSet::new();
        set.insert(TilePos::zero());
        assert(set@ =~= set![TilePos::spec_zero()]);
        Footprint { set }
    }

    /// A footprint that occupies a set of tiles in a solid hexagon.
    pub fn hexagon(radius: u32) -> (f: Footprint)
        requires
            hexagon_fits(TilePos::spec_zero(), radius),
        ensures
            forall|p: TilePos| #[trigger]
                f@.contains(p) <==> in_hexagon(p, TilePos::spec_zero(), radius as int),
    {
        let tiles = hexagon(TilePos::zero(), radius);
        let f = Footprint::from_tiles(tiles);
        f
    }

    /// Computes the set of tiles that this footprint occupies in world space,
    /// when centered at `center`.
    pub fn in_world_space(&self, center: TilePos) -> (s: TileSet)
        requires
            shiftable(self@, center),
        ensures
            s.wf(),
            s@ == shifted(self@, center),
    {
        proof {
            use_type_invariant(self);
        }
        let v = self.set.to_vec();
        let ghost f = |p: TilePos| center.spec_add(p);
        let mut out = TileSet::new();
        let mut i: usize = 0;
        assert(v@.subrange(0, 0).to_set().map(f) =~= Set::<TilePos>::empty());
        while i < v.len()
            invariant
                i <= v@.len(),
                v@.to_set() == self@,
                shiftable(self@, center),
                out.wf(),
                f == (|p: TilePos| center.spec_add(p)),
                out@ == v@.subrange(0, i as int).to_set().map(f),
            decreases v@.len() - i,
        {
            assert(v@.to_set().contains(v@[i as int]));
            let q = center.offset_by(v[i]);
            out.insert(q);
            proof {
                lemma_map_prefix(v@, i as int, f);
            }
            i = i + 1;
        }
        assert(v@.subrange(0, v@.len() as int) =~= v@);
        out
    }

    /// Rotates the footprint by the provided [`Facing`].
    pub fn rotated(&self, facing: Facing) -> (r: Footprint)
        requires
            forall|p: TilePos| #[trigger] self@.contains(p) ==> p.cubic_fits(),
        ensures
            r@ == rotated_set(self@, facing),
            forall|p: TilePos| #[trigger] r@.contains(p) ==> p.cubic_fits(),
    {
        proof {
            use_type_invariant(self);
        }
        let v = self.set.to_vec();
        let ghost f = |p: TilePos| p.spec_rotated(facing);
        let mut out = TileSet::new();
        let mut i: usize = 0;
        assert(v@.subrange(0, 0).to_set().map(f) =~= Set::<TilePos>::empty());
        while i < v.len()
            invariant
                i <= v@.len(),
                v@.to_set() == self@,
                forall|p: TilePos| #[trigger] self@.contains(p) ==> p.cubic_fits(),
                out.wf(),
                f == (|p: TilePos| p.spec_rotated(facing)),
                out@ == v@.subrange(0, i as int).to_set().map(f),
            decreases v@.len() - i,
        {
            assert(v@.to_set().contains(v@[i as int]));
            let q = v[i].rotated(facing);
            out.insert(q);
            proof {
                lemma_map_prefix(v@, i as int, f);
            }
            i = i + 1;
        }
        assert(v@.subrange(0, v@.len() as int) =~= v@);
        assert forall|p: TilePos| #[trigger] out@.contains(p) implies p.cubic_fits() by {
            let x = choose|x: TilePos| #[trigger] self@.contains(x) && p == f(x);
            crate::tile::lemma_rotate_ccw_fits(x, facing.spec_rotation_count());
        }
        Footprint { set: out }
    }

    /// Returns this footprint after correcting for offset and rotation.
    pub fn normalized(&self, facing: Facing, center: TilePos) -> (s: TileSet)
        requires
            normalizable(self@, facing, center),
        ensures
            s.wf(),
            s@ == normalized_set(self@, facing, center),
    {
        let rotated = self.rotated(facing);
        rotated.in_world_space(center)
    }
}

impl Default for Footprint {
    fn default() -> (f: Footprint)
        ensures
            f@ == set![TilePos::spec_zero()],
    {
        Footprint::single()
    }
}

impl PartialEq for Footprint {
    fn eq(&self, other: &Footprint) -> (r: bool) {
        proof {
            use_type_invariant(self);
            use_type_invariant(other);
        }
        self.set.same_elements(&other.set)
    }
}

impl vstd::std_specs::cmp::PartialEqSpecImpl for Footprint {
    open spec fn obeys_eq_spec() -> bool {
        true
    }

    open spec fn eq_spec(&self, other: &Footprint) -> bool {
        self@ == other@
    }
}

} // verus!
