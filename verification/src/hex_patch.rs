//! Data associated with a 7-tile hex patch: a central tile and its six neighbors.

use crate::geometry::MapGeometry;
use crate::map_data::MapData;
use crate::tile::{Direction, TilePos};
use vstd::prelude::*;

verus! {

/// The six compass directions of a tile's neighbours.
#[derive(Debug, Clone, Copy, PartialEq, Eq, Hash, Structural)]
pub enum HexRowDirection {
    /// The northern neighbour.
    North,
    /// The north-western neighbour.
    NorthWest,
    /// The south-western neighbour.
    SouthWest,
    /// The southern neighbour.
    South,
    /// The south-eastern neighbour.
    SouthEast,
    /// The north-eastern neighbour.
    NorthEast,
}

impl HexRowDirection {
    /// The edge direction of the map layout that this compass direction names.
    pub open spec fn spec_direction(self) -> Direction {
        match self {
            HexRowDirection::North => Direction::Top,
            HexRowDirection::NorthWest => Direction::TopLeft,
            HexRowDirection::SouthWest => Direction::BottomLeft,
            HexRowDirection::South => Direction::Bottom,
            HexRowDirection::SouthEast => Direction::BottomRight,
            HexRowDirection::NorthEast => Direction::TopRight,
        }
    }

    /// The edge direction of the map layout that this compass direction names.
    pub fn direction(&self) -> (d: Direction)
        ensures
            d == self.spec_direction(),
    {
        match self {
            HexRowDirection::North => Direction::Top,
            HexRowDirection::NorthWest => Direction::TopLeft,
            HexRowDirection::SouthWest => Direction::BottomLeft,
            HexRowDirection::South => Direction::Bottom,
            HexRowDirection::SouthEast => Direction::BottomRight,
            HexRowDirection::NorthEast => Direction::TopRight,
        }
    }
}

/// The six neighbor directions, in declaration order.
pub open spec fn neighbor_directions() -> Seq<HexRowDirection> {
    seq![
        HexRowDirection::North,
        HexRowDirection::NorthWest,
        HexRowDirection::SouthWest,
        HexRowDirection::South,
        HexRowDirection::SouthEast,
        HexRowDirection::NorthEast,
    ]
}

impl HexRowDirection {
    /// All six directions, in declaration order.
    pub fn variants() -> (v: Vec<HexRowDirection>)
        ensures
            v@ == neighbor_directions(),
    {
        let v = vec![
            HexRowDirection::North,
            HexRowDirection::NorthWest,
            HexRowDirection::SouthWest,
            HexRowDirection::South,
            HexRowDirection::SouthEast,
            HexRowDirection::NorthEast,
        ];
        assert(v@ =~= neighbor_directions());
        v
    }
}

/// Every direction occurs in [`neighbor_directions`], at the index of its variant.
pub proof fn lemma_neighbor_directions(d: HexRowDirection)
    ensures
        neighbor_directions().contains(d),
        neighbor_directions().len() == 6,
        neighbor_directions().no_duplicates(),
{
    let s = neighbor_directions();
    match d {
        HexRowDirection::North => assert(s[0] == d),
        HexRowDirection::NorthWest => assert(s[1] == d),
        HexRowDirection::SouthWest => assert(s[2] == d),
        HexRowDirection::South => assert(s[3] == d),
        HexRowDirection::SouthEast => assert(s[4] == d),
        HexRowDirection::NorthEast => assert(s[5] == d),
    }
}

/// Enumerates the positions in a 7-tile hex patch (central tile + 6 neighbors)
#[derive(Debug, Clone, Copy, PartialEq, Eq, Hash, Structural)]
pub enum HexPatchLocation {
    /// The central position
    Center,
    /// The northern (neighboring) position
    North,
    /// The north-western (neighboring) position
    NorthWest,
    /// The south-western (neighboring) position
    SouthWest,
    /// The southern (neighboring) position
    South,
    /// The south-eastern (neighboring) position
    SouthEast,
    /// The north-eastern (neighboring) position
    NorthEast,
}

/// The seven locations of a hex patch, in declaration order.
pub open spec fn patch_locations() -> Seq<HexPatchLocation> {
    seq![
        HexPatchLocation::Center,
        HexPatchLocation::North,
        HexPatchLocation::NorthWest,
        HexPatchLocation::SouthWest,
        HexPatchLocation::South,
        HexPatchLocation::SouthEast,
        HexPatchLocation::NorthEast,
    ]
}

impl HexPatchLocation {
    /// The compass direction of a neighbouring location; `None` for the center.
    pub open spec fn spec_as_hex_row_direction(self) -> Option<HexRowDirection> {
        match self {
            HexPatchLocation::Center => None,
            HexPatchLocation::North => Some(HexRowDirection::North),
            HexPatchLocation::NorthWest => Some(HexRowDirection::NorthWest),
            HexPatchLocation::SouthWest => Some(HexRowDirection::SouthWest),
            HexPatchLocation::South => Some(HexRowDirection::South),
            HexPatchLocation::SouthEast => Some(HexRowDirection::SouthEast),
            HexPatchLocation::NorthEast => Some(HexRowDirection::NorthEast),
        }
    }

    /// Convert a non-central hex patch location into a [`HexRowDirection`]
    pub fn as_hex_row_direction(&self) -> (d: Option<HexRowDirection>)
        ensures
            d == self.spec_as_hex_row_direction(),
    {
        match self {
            HexPatchLocation::Center => None,
            HexPatchLocation::North => Some(HexRowDirection::North),
            HexPatchLocation::NorthWest => Some(HexRowDirection::NorthWest),
            HexPatchLocation::SouthWest => Some(HexRowDirection::SouthWest),
            HexPatchLocation::South => Some(HexRowDirection::South),
            HexPatchLocation::SouthEast => Some(HexRowDirection::SouthEast),
            HexPatchLocation::NorthEast => Some(HexRowDirection::NorthEast),
        }
    }

    /// All seven locations, in declaration order.
    pub fn variants() -> (v: Vec<HexPatchLocation>)
        ensures
            v@ == patch_locations(),
    {
        let v = vec![
            HexPatchLocation::Center,
            HexPatchLocation::North,
            HexPatchLocation::NorthWest,
            HexPatchLocation::SouthWest,
            HexPatchLocation::South,
            HexPatchLocation::SouthEast,
            HexPatchLocation::NorthEast,
        ];
        assert(v@ =~= patch_locations());
        v
    }
}

/// Every location occurs in [`patch_locations`], at the index of its variant.
pub proof fn lemma_patch_locations(loc: HexPatchLocation)
    ensures
        patch_locations().contains(loc),
        patch_locations().len() == 7,
        patch_locations().no_duplicates(),
{
    let s = patch_locations();
    match loc {
        HexPatchLocation::Center => assert(s[0] == loc),
        HexPatchLocation::North => assert(s[1] == loc),
        HexPatchLocation::NorthWest => assert(s[2] == loc),
        HexPatchLocation::SouthWest => assert(s[3] == loc),
        HexPatchLocation::South => assert(s[4] == loc),
        HexPatchLocation::SouthEast => assert(s[5] == loc),
        HexPatchLocation::NorthEast => assert(s[6] == loc),
    }
}

/// The sequence holding the value of `o`, if any.
pub open spec fn present<T>(o: Option<T>) -> Seq<T> {
    match o {
        Some(v) => seq![v],
        None => Seq::empty(),
    }
}

/// Applies `f` to the value held by `o`, if any, and calls it once.
pub(crate) fn option_and_then<T, U, F: Fn(T) -> Option<U>>(o: Option<T>, f: &F) -> (r: Option<U>)
    requires
        o matches Some(v) ==> f.requires((v,)),
    ensures
        match o {
            Some(v) => f.ensures((v,), r),
            None => r is None,
        },
{
    match o {
        Some(v) => f(v),
        None => None,
    }
}

/// Applies `f` to the value held by `o`, if any, wrapping the result in `Some`.
pub(crate) fn option_map<T, U, F: Fn(T) -> U>(o: Option<T>, f: &F) -> (r: Option<U>)
    requires
        o matches Some(v) ==> f.requires((v,)),
    ensures
        match o {
            Some(v) => r matches Some(u) && f.ensures((v,), u),
            None => r is None,
        },
{
    match o {
        Some(v) => Some(f(v)),
        None => None,
    }
}

/// Stores some data `T` associated with each neighboring hex cell, if present.
#[derive(Debug)]
pub struct HexPatch<T> {
    /// The central tile
    center: Option<T>,
    /// The northern neighbor.
    north: Option<T>,
    /// The north-western neighbor.
    north_west: Option<T>,
    /// The south-western neighbor.
    south_west: Option<T>,
    /// The southern neighbor.
    south: Option<T>,
    /// The south-eastern neighbor.
    south_east: Option<T>,
    /// The north-eastern neighbor.
    north_east: Option<T>,
}

impl<T> HexPatch<T> {
    /// The data stored at `location`, if any.
    pub closed spec fn at(&self, location: HexPatchLocation) -> Option<T> {
        match location {
            HexPatchLocation::Center => self.center,
            HexPatchLocation::North => self.north,
            HexPatchLocation::NorthWest => self.north_west,
            HexPatchLocation::SouthWest => self.south_west,
            HexPatchLocation::South => self.south,
            HexPatchLocation::SouthEast => self.south_east,
            HexPatchLocation::NorthEast => self.north_east,
        }
    }

    /// The data present at the locations `locs`, in order.
    pub open spec fn values_at(&self, locs: Seq<HexPatchLocation>) -> Seq<T>
        decreases locs.len(),
    {
        if locs.len() == 0 {
            Seq::empty()
        } else {
            self.values_at(locs.drop_last()) + present(self.at(locs.last()))
        }
    }

    /// The data present in the patch, in the order of [`patch_locations`].
    pub open spec fn values(&self) -> Seq<T> {
        self.values_at(patch_locations())
    }

    /// Each location reads its own field.
    proof fn lemma_fields(&self)
        ensures
            self.at(HexPatchLocation::Center) == self.center,
            self.at(HexPatchLocation::North) == self.north,
            self.at(HexPatchLocation::NorthWest) == self.north_west,
            self.at(HexPatchLocation::SouthWest) == self.south_west,
            self.at(HexPatchLocation::South) == self.south,
            self.at(HexPatchLocation::SouthEast) == self.south_east,
            self.at(HexPatchLocation::NorthEast) == self.north_east,
    {
    }

    /// A patch with no data anywhere.
    pub fn empty() -> (p: HexPatch<T>)
        ensures
            forall|loc: HexPatchLocation| #[trigger] p.at(loc) is None,
    {
        HexPatch {
            center: None,
            north: None,
            north_west: None,
            south_west: None,
            south: None,
            south_east: None,
            north_east: None,
        }
    }

    /// Get the data in the specified location.
    pub fn get(&self, location: HexPatchLocation) -> (r: Option<&T>)
        ensures
            r == (match self.at(location) {
                Some(v) => Some(&v),
                None => None,
            }),
    {
        match location {
            HexPatchLocation::Center => self.center.as_ref(),
            HexPatchLocation::North => self.north.as_ref(),
            HexPatchLocation::NorthWest => self.north_west.as_ref(),
            HexPatchLocation::SouthWest => self.south_west.as_ref(),
            HexPatchLocation::South => self.south.as_ref(),
            HexPatchLocation::SouthEast => self.south_east.as_ref(),
            HexPatchLocation::NorthEast => self.north_east.as_ref(),
        }
    }

    /// Get mutable access to the data in the specified location.
    pub fn get_mut(&mut self, location: HexPatchLocation) -> (r: &mut Option<T>)
        ensures
            *r == old(self).at(location),
            final(self).at(location) == *final(r),
            forall|other: HexPatchLocation| #[trigger]
                final(self).at(other) == (if other == location {
                    *final(r)
                } else {
                    old(self).at(other)
                }),
    {
        match location {
            HexPatchLocation::Center => &mut self.center,
            HexPatchLocation::North => &mut self.north,
            HexPatchLocation::NorthWest => &mut self.north_west,
            HexPatchLocation::SouthWest => &mut self.south_west,
            HexPatchLocation::South => &mut self.south,
            HexPatchLocation::SouthEast => &mut self.south_east,
            HexPatchLocation::NorthEast => &mut self.north_east,
        }
    }

    /// Get a mutable reference to the data in the specified location, if any.
    pub fn get_inner_mut(&mut self, location: HexPatchLocation) -> (r: Option<&mut T>)
        ensures
            match old(self).at(location) {
                None => r is None && *final(self) == *old(self),
                Some(v) => r matches Some(x) && *x == v && forall|other: HexPatchLocation| #[trigger]
                    final(self).at(other) == (if other == location {
                        Some(*final(x))
                    } else {
                        old(self).at(other)
                    }),
            },
    {
        match location {
            HexPatchLocation::Center => self.center.as_mut(),
            HexPatchLocation::North => self.north.as_mut(),
            HexPatchLocation::NorthWest => self.north_west.as_mut(),
            HexPatchLocation::SouthWest => self.south_west.as_mut(),
            HexPatchLocation::South => self.south.as_mut(),
            HexPatchLocation::SouthEast => self.south_east.as_mut(),
            HexPatchLocation::NorthEast => self.north_east.as_mut(),
        }
    }
}

impl<T> HexPatch<T> {
    /// References to the data present in the patch, in the order of [`patch_locations`].
    pub fn iter(&self) -> (v: Vec<&T>)
        ensures
            v@.len() == self.values().len(),
            forall|i: int| 0 <= i < v@.len() ==> *v@[i] == self.values()[i],
    {
        let locations = HexPatchLocation::variants();
        let mut v: Vec<&T> = Vec::new();
        let mut i: usize = 0;
        assert(locations@.take(0) =~= Seq::<HexPatchLocation>::empty());
        while i < locations.len()
            invariant
                i <= locations@.len(),
                locations@ == patch_locations(),
                v@.len() == self.values_at(locations@.take(i as int)).len(),
                forall|j: int|
                    0 <= j < v@.len() ==> *v@[j] == self.values_at(locations@.take(i as int))[j],
            decreases locations@.len() - i,
        {
            assert(locations@.take(i + 1).drop_last() =~= locations@.take(i as int));
            assert(locations@.take(i + 1).last() == locations@[i as int]);
            if let Some(x) = self.get(locations[i]) {
                v.push(x);
            }
            i = i + 1;
        }
        assert(locations@.take(7) =~= patch_locations());
        v
    }

    /// Count the number of positions (center and neighbors) with `Some` data.
    pub fn count(&self) -> (n: usize)
        ensures
            n == self.values().len(),
    {
        self.iter().len()
    }

    /// Applies the supplied closure `f` with an `and_then` to each element,
    /// where `f` takes `T` by value.
    pub fn and_then<U, F: Fn(T) -> Option<U>>(self, f: F) -> (r: HexPatch<U>)
        requires
            forall|loc: HexPatchLocation| #![trigger self.at(loc)]
                self.at(loc) matches Some(v) ==> f.requires((v,)),
        ensures
            forall|loc: HexPatchLocation| #![trigger r.at(loc)]
                match self.at(loc) {
                    Some(v) => f.ensures((v,), r.at(loc)),
                    None => r.at(loc) is None,
                },
    {
        let ghost old_self = self;
        let HexPatch { center, north, north_west, south_west, south, south_east, north_east } = self;
        assert(old_self.at(HexPatchLocation::Center) == center);
        assert(old_self.at(HexPatchLocation::North) == north);
        assert(old_self.at(HexPatchLocation::NorthWest) == north_west);
        assert(old_self.at(HexPatchLocation::SouthWest) == south_west);
        assert(old_self.at(HexPatchLocation::South) == south);
        assert(old_self.at(HexPatchLocation::SouthEast) == south_east);
        assert(old_self.at(HexPatchLocation::NorthEast) == north_east);
        HexPatch {
            center: option_and_then(center, &f),
            north: option_and_then(north, &f),
            north_west: option_and_then(north_west, &f),
            south_west: option_and_then(south_west, &f),
            south: option_and_then(south, &f),
            south_east: option_and_then(south_east, &f),
            north_east: option_and_then(north_east, &f),
        }
    }

    /// Applies the supplied closure `f` with an `and_then` to each element,
    /// where `f` takes `T` by reference.
    pub fn and_then_ref<'a, U, F: Fn(&'a T) -> Option<U>>(&'a self, f: F) -> (r: HexPatch<U>)
        requires
            forall|loc: HexPatchLocation| #![trigger self.at(loc)]
                self.at(loc) matches Some(v) ==> f.requires((&v,)),
        ensures
            forall|loc: HexPatchLocation| #![trigger r.at(loc)]
                match self.at(loc) {
                    Some(v) => f.ensures((&v,), r.at(loc)),
                    None => r.at(loc) is None,
                },
    {
        proof {
            self.lemma_fields();
        }
        HexPatch {
            center: option_and_then(self.center.as_ref(), &f),
            north: option_and_then(self.north.as_ref(), &f),
            north_west: option_and_then(self.north_west.as_ref(), &f),
            south_west: option_and_then(self.south_west.as_ref(), &f),
            south: option_and_then(self.south.as_ref(), &f),
            south_east: option_and_then(self.south_east.as_ref(), &f),
            north_east: option_and_then(self.north_east.as_ref(), &f),
        }
    }

    /// Applies the supplied closure `f` with a `map` to each element, where
    /// `f` takes `T` by reference.
    pub fn map_ref<'a, U, F: Fn(&'a T) -> U>(&'a self, f: F) -> (r: HexPatch<U>)
        requires
            forall|loc: HexPatchLocation| #![trigger self.at(loc)]
                self.at(loc) matches Some(v) ==> f.requires((&v,)),
        ensures
            forall|loc: HexPatchLocation| #![trigger r.at(loc)]
                match self.at(loc) {
                    Some(v) => r.at(loc) matches Some(u) && f.ensures((&v,), u),
                    None => r.at(loc) is None,
                },
    {
        proof {
            self.lemma_fields();
        }
        HexPatch {
            center: option_map(self.center.as_ref(), &f),
            north: option_map(self.north.as_ref(), &f),
            north_west: option_map(self.north_west.as_ref(), &f),
            south_west: option_map(self.south_west.as_ref(), &f),
            south: option_map(self.south.as_ref(), &f),
            south_east: option_map(self.south_east.as_ref(), &f),
            north_east: option_map(self.north_east.as_ref(), &f),
        }
    }

    /// Generates a `HexPatch<T>` from a closure that takes a location and
    /// outputs `Option<T>`; the closure is called once for each location.
    pub fn from_locational_closure<F: Fn(HexPatchLocation) -> Option<T>>(f: F) -> (r: HexPatch<T>)
        requires
            forall|loc: HexPatchLocation| #[trigger] f.requires((loc,)),
        ensures
            forall|loc: HexPatchLocation| #[trigger] f.ensures((loc,), r.at(loc)),
    {
        let mut result: HexPatch<T> = HexPatch::empty();
        let locations = HexPatchLocation::variants();
        let mut i: usize = 0;
        while i < locations.len()
            invariant
                i <= locations@.len(),
                locations@ == patch_locations(),
                forall|loc: HexPatchLocation| #[trigger] f.requires((loc,)),
                forall|j: int| 0 <= j < i ==> f.ensures((locations@[j],), #[trigger] result.at(locations@[j])),
                forall|j: int| i <= j < 7 ==> #[trigger] result.at(locations@[j]) is None,
            decreases locations@.len() - i,
        {
            let location = locations[i];
            let value = f(location);
            *(result.get_mut(location)) = value;
            proof {
                lemma_patch_locations(location);
                assert forall|j: int| 0 <= j < 7 && j != i implies locations@[j] != location by {}
            }
            i = i + 1;
        }
        proof {
            assert forall|loc: HexPatchLocation| #[trigger] f.ensures((loc,), result.at(loc)) by {
                lemma_patch_locations(loc);
                let j = choose|j: int| 0 <= j < 7 && locations@[j] == loc;
            }
        }
        result
    }
}

/// Does a filter patch let data at a location through? Locations where the
/// filter holds no data count as `default_none`.
pub open spec fn filter_passes(filter: Option<MapData<bool>>, default_none: bool) -> bool {
    match filter {
        Some(d) => d@,
        None => default_none,
    }
}

/// `o` with its value taken by reference.
pub open spec fn as_ref_spec<'a, T>(o: Option<T>) -> Option<&'a T> {
    match o {
        Some(v) => Some(&v),
        None => None,
    }
}

/// The tile at `location` of the hex patch centered on `center`.
pub open spec fn patch_tile(center: TilePos, location: HexPatchLocation) -> TilePos {
    match location.spec_as_hex_row_direction() {
        None => center,
        Some(d) => center.spec_neighbor(d.spec_direction()),
    }
}

impl<T> HexPatch<T> {
    /// Filter using a hex patch of booleans: where the filter is `true`,
    /// return whatever data `self` contains at that location, otherwise
    /// `None`.
    ///
    /// `default_none` is the filter value used where the filter patch has no
    /// data.
    pub fn apply_filter<'a>(
        &'a self,
        filter_patch: &HexPatch<MapData<bool>>,
        default_none: bool,
    ) -> (r: HexPatch<&'a T>)
        ensures
            forall|loc: HexPatchLocation| #[trigger]
                r.at(loc) == (if filter_passes(filter_patch.at(loc), default_none) {
                    as_ref_spec(self.at(loc))
                } else {
                    None
                }),
    {
        let mut result: HexPatch<&'a T> = HexPatch::empty();
        let locations = HexPatchLocation::variants();
        let mut i: usize = 0;
        while i < locations.len()
            invariant
                i <= locations@.len(),
                locations@ == patch_locations(),
                forall|j: int|
                    0 <= j < i ==> #[trigger] result.at(locations@[j]) == (if filter_passes(
                        filter_patch.at(locations@[j]),
                        default_none,
                    ) {
                        as_ref_spec(self.at(locations@[j]))
                    } else {
                        None
                    }),
            decreases locations@.len() - i,
        {
            let location = locations[i];
            let passes = match filter_patch.get(location) {
                Some(filter_data) => *filter_data.read(),
                None => default_none,
            };
            let value = if passes {
                self.get(location)
            } else {
                None
            };
            *(result.get_mut(location)) = value;
            proof {
                lemma_patch_locations(location);
                assert forall|j: int| 0 <= j < 7 && j != i implies locations@[j] != location by {}
            }
            i = i + 1;
        }
        proof {
            assert forall|loc: HexPatchLocation| #[trigger] result.at(loc) == (if filter_passes(
                filter_patch.at(loc),
                default_none,
            ) {
                as_ref_spec(self.at(loc))
            } else {
                None
            }) by {
                lemma_patch_locations(loc);
                let j = choose|j: int| 0 <= j < 7 && locations@[j] == loc;
            }
        }
        result
    }
}

impl<'a, T: Clone> HexPatch<&'a T> {
    /// Clone the referenced data.
    pub fn cloned(&self) -> (r: HexPatch<T>)
        ensures
            forall|loc: HexPatchLocation| #![trigger r.at(loc)]
                match self.at(loc) {
                    Some(x) => r.at(loc) matches Some(y) && vstd::pervasive::cloned(*x, y),
                    None => r.at(loc) is None,
                },
    {
        proof {
            self.lemma_fields();
        }
        HexPatch {
            center: clone_ref(self.center),
            north: clone_ref(self.north),
            north_west: clone_ref(self.north_west),
            south_west: clone_ref(self.south_west),
            south: clone_ref(self.south),
            south_east: clone_ref(self.south_east),
            north_east: clone_ref(self.north_east),
        }
    }
}

/// A clone of the referenced value, if any.
pub(crate) fn clone_ref<T: Clone>(o: Option<&T>) -> (r: Option<T>)
    ensures
        match o {
            Some(x) => r matches Some(y) && vstd::pervasive::cloned(*x, y),
            None => r is None,
        },
{
    match o {
        Some(x) => Some(x.clone()),
        None => None,
    }
}

impl<T> Default for HexPatch<T> {
    fn default() -> (p: HexPatch<T>)
        ensures
            forall|loc: HexPatchLocation| #[trigger] p.at(loc) is None,
    {
        HexPatch::empty()
    }
}

impl HexPatch<TilePos> {
    /// Generates a hex patch of positions centered on the specified center position.
    ///
    /// A position will be `None` for a particular location if that tile would
    /// not lie on the map.
    pub fn generate(center_position: &TilePos, map_geometry: &MapGeometry) -> (r: HexPatch<TilePos>)
        requires
            center_position.neighbors_fit(),
        ensures
            forall|loc: HexPatchLocation| #[trigger]
                r.at(loc) == (if map_geometry.spec_is_valid(patch_tile(*center_position, loc)) {
                    Some(patch_tile(*center_position, loc))
                } else {
                    None
                }),
    {
        let center = *center_position;
        let mut result: HexPatch<TilePos> = HexPatch::empty();
        let locations = HexPatchLocation::variants();
        let mut i: usize = 0;
        while i < locations.len()
            invariant
                i <= locations@.len(),
                locations@ == patch_locations(),
                center.neighbors_fit(),
                forall|j: int|
                    0 <= j < i ==> #[trigger] result.at(locations@[j]) == (if map_geometry.spec_is_valid(
                        patch_tile(center, locations@[j]),
                    ) {
                        Some(patch_tile(center, locations@[j]))
                    } else {
                        None
                    }),
            decreases locations@.len() - i,
        {
            let location = locations[i];
            let tile_pos = match location.as_hex_row_direction() {
                None => center,
                Some(row_direction) => center.neighbor(row_direction.direction()),
            };
            let value = if map_geometry.is_valid(tile_pos) {
                Some(tile_pos)
            } else {
                None
            };
            *(result.get_mut(location)) = value;
            proof {
                lemma_patch_locations(location);
                assert forall|j: int| 0 <= j < 7 && j != i implies locations@[j] != location by {}
            }
            i = i + 1;
        }
        proof {
            assert forall|loc: HexPatchLocation| #[trigger] result.at(loc) == (if map_geometry.spec_is_valid(
                patch_tile(center, loc),
            ) {
                Some(patch_tile(center, loc))
            } else {
                None
            }) by {
                lemma_patch_locations(loc);
                let j = choose|j: int| 0 <= j < 7 && locations@[j] == loc;
            }
        }
        result
    }

    /// Choose a random tile among the positions present in the patch.
    pub fn choose_random(&self, rng: &mut rand::rngs::ThreadRng) -> (r: Option<TilePos>)
        ensures
            r is None <==> self.values().len() == 0,
            r matches Some(p) ==> self.values().contains(p),
    {
        let refs = self.iter();
        let mut possible_choices: Vec<TilePos> = Vec::new();
        let mut i: usize = 0;
        while i < refs.len()
            invariant
                i <= refs@.len(),
                refs@.len() == self.values().len(),
                forall|j: int| 0 <= j < refs@.len() ==> *refs@[j] == self.values()[j],
                possible_choices@ == self.values().take(i as int),
            decreases refs@.len() - i,
        {
            possible_choices.push(*refs[i]);
            assert(possible_choices@ =~= self.values().take(i + 1));
            i = i + 1;
        }
        assert(possible_choices@ =~= self.values());
        crate::random::choose_one(rng, &possible_choices)
    }
}

} // verus!
