//! Data associated with the six neighbors of a tile.

use crate::geometry::MapGeometry;
use crate::hex_patch::{
    as_ref_spec, clone_ref, filter_passes, lemma_neighbor_directions, neighbor_directions,
    option_and_then, option_map, present, HexRowDirection,
};
use crate::map_data::MapData;
use crate::tile::TilePos;
use vstd::prelude::*;

verus! {

/// Stores some data `T` associated with each neighboring hex cell, if present.
#[derive(Debug)]
pub struct HexNeighbors<T> {
    /// The northern neighbor.
    north: Option<T>,
    /// The north-western neighbor.
    north_west: Option<T>,
    /// The south-western neighbor.
    south_west: Option<T>,
    /// The southern neighbor.
    south: Option<T>,
    /// The south-eastern neighbor.
    south_east: Option<T>,
    /// The north-eastern neighbor.
    north_east: Option<T>,
}

impl<T> HexNeighbors<T> {
    /// The data stored at `direction`, if any.
    pub closed spec fn at(&self, direction: HexRowDirection) -> Option<T> {
        match direction {
                        HexRowDirection::North => self.north,
            HexRowDirection::NorthWest => self.north_west,
            HexRowDirection::SouthWest => self.south_west,
            HexRowDirection::South => self.south,
            HexRowDirection::SouthEast => self.south_east,
            HexRowDirection::NorthEast => self.north_east,
        }
    }

    /// The data present at the directions `locs`, in order.
    pub open spec fn values_at(&self, locs: Seq<HexRowDirection>) -> Seq<T>
        decreases locs.len(),
    {
        if locs.len() == 0 {
            Seq::empty()
        } else {
            self.values_at(locs.drop_last()) + present(self.at(locs.last()))
        }
    }

    /// The data present in the neighbor set, in the order of [`neighbor_directions`].
    pub open spec fn values(&self) -> Seq<T> {
        self.values_at(neighbor_directions())
    }

    /// Each direction reads its own field.
    proof fn lemma_fields(&self)
        ensures
                self.at(HexRowDirection::North) == self.north,
            self.at(HexRowDirection::NorthWest) == self.north_west,
            self.at(HexRowDirection::SouthWest) == self.south_west,
            self.at(HexRowDirection::South) == self.south,
            self.at(HexRowDirection::SouthEast) == self.south_east,
            self.at(HexRowDirection::NorthEast) == self.north_east,
    {
    }

    /// A neighbor set with no data anywhere.
    pub fn empty() -> (p: HexNeighbors<T>)
        ensures
            forall|loc: HexRowDirection| #[trigger] p.at(loc) is None,
    {
        HexNeighbors {
            north: None,
            north_west: None,
            south_west: None,
            south: None,
            south_east: None,
            north_east: None,
        }
    }

    /// Get the data in the specified direction.
    pub fn get(&self, direction: HexRowDirection) -> (r: Option<&T>)
        ensures
            r == (match self.at(direction) {
                Some(v) => Some(&v),
                None => None,
            }),
    {
        match direction {
                        HexRowDirection::North => self.north.as_ref(),
            HexRowDirection::NorthWest => self.north_west.as_ref(),
            HexRowDirection::SouthWest => self.south_west.as_ref(),
            HexRowDirection::South => self.south.as_ref(),
            HexRowDirection::SouthEast => self.south_east.as_ref(),
            HexRowDirection::NorthEast => self.north_east.as_ref(),
        }
    }

    /// Mutable access to the slot of the specified direction.
    fn slot_mut(&mut self, direction: HexRowDirection) -> (r: &mut Option<T>)
        ensures
            *r == old(self).at(direction),
            final(self).at(direction) == *final(r),
            forall|other: HexRowDirection| #[trigger]
                final(self).at(other) == (if other == direction {
                    *final(r)
                } else {
                    old(self).at(other)
                }),
    {
        match direction {
                        HexRowDirection::North => &mut self.north,
            HexRowDirection::NorthWest => &mut self.north_west,
            HexRowDirection::SouthWest => &mut self.south_west,
            HexRowDirection::South => &mut self.south,
            HexRowDirection::SouthEast => &mut self.south_east,
            HexRowDirection::NorthEast => &mut self.north_east,
        }
    }

    /// Set the data associated with the neighbor in the specified direction.
    pub fn set(&mut self, direction: HexRowDirection, data: T)
        ensures
            forall|other: HexRowDirection| #[trigger]
                final(self).at(other) == (if other == direction {
                    Some(data)
                } else {
                    old(self).at(other)
                }),
    {
        *self.slot_mut(direction) = Some(data);
    }

    /// Get a mutable reference to the data in the specified direction, if any.
    pub fn get_mut(&mut self, direction: HexRowDirection) -> (r: Option<&mut T>)
        ensures
            match old(self).at(direction) {
                None => r is None && *final(self) == *old(self),
                Some(v) => r matches Some(x) && *x == v && forall|other: HexRowDirection| #[trigger]
                    final(self).at(other) == (if other == direction {
                        Some(*final(x))
                    } else {
                        old(self).at(other)
                    }),
            },
    {
        match direction {
                        HexRowDirection::North => self.north.as_mut(),
            HexRowDirection::NorthWest => self.north_west.as_mut(),
            HexRowDirection::SouthWest => self.south_west.as_mut(),
            HexRowDirection::South => self.south.as_mut(),
            HexRowDirection::SouthEast => self.south_east.as_mut(),
            HexRowDirection::NorthEast => self.north_east.as_mut(),
        }
    }
}

impl<T> HexNeighbors<T> {
    /// References to the data present in the neighbor set, in the order of [`neighbor_directions`].
    pub fn iter(&self) -> (v: Vec<&T>)
        ensures
            v@.len() == self.values().len(),
            forall|i: int| 0 <= i < v@.len() ==> *v@[i] == self.values()[i],
    {
        let directions = HexRowDirection::variants();
        let mut v: Vec<&T> = Vec::new();
        let mut i: usize = 0;
        assert(directions@.take(0) =~= Seq::<HexRowDirection>::empty());
        while i < directions.len()
            invariant
                i <= directions@.len(),
                directions@ == neighbor_directions(),
                v@.len() == self.values_at(directions@.take(i as int)).len(),
                forall|j: int|
                    0 <= j < v@.len() ==> *v@[j] == self.values_at(directions@.take(i as int))[j],
            decreases directions@.len() - i,
        {
            assert(directions@.take(i + 1).drop_last() =~= directions@.take(i as int));
            assert(directions@.take(i + 1).last() == directions@[i as int]);
            if let Some(x) = self.get(directions[i]) {
                v.push(x);
            }
            i = i + 1;
        }
        assert(directions@.take(6) =~= neighbor_directions());
        v
    }

    /// Count the number of neighbors with `Some` data.
    pub fn count(&self) -> (n: usize)
        ensures
            n == self.values().len(),
    {
        self.iter().len()
    }

    /// Applies the supplied closure `f` with an `and_then` to each element,
    /// where `f` takes `T` by value.
    pub fn and_then<U, F: Fn(T) -> Option<U>>(self, f: F) -> (r: HexNeighbors<U>)
        requires
            forall|loc: HexRowDirection| #![trigger self.at(loc)]
                self.at(loc) matches Some(v) ==> f.requires((v,)),
        ensures
            forall|loc: HexRowDirection| #![trigger r.at(loc)]
                match self.at(loc) {
                    Some(v) => f.ensures((v,), r.at(loc)),
                    None => r.at(loc) is None,
                },
    {
        let ghost old_self = self;
        let HexNeighbors { north, north_west, south_west, south, south_east, north_east } = self;
        assert(old_self.at(HexRowDirection::North) == north);
        assert(old_self.at(HexRowDirection::NorthWest) == north_west);
        assert(old_self.at(HexRowDirection::SouthWest) == south_west);
        assert(old_self.at(HexRowDirection::South) == south);
        assert(old_self.at(HexRowDirection::SouthEast) == south_east);
        assert(old_self.at(HexRowDirection::NorthEast) == north_east);
        HexNeighbors {
            north: option_and_then(north, &f),
            north_west: option_and_then(north_west, &f),
            south_west: option_and_then(south_west, &f),
            south: option_and_then(south, &f),
            south_east: option_and_then(south_east, &f),
            north_east: option_and_then(north_east, &f),
        }
    }

    /// Applies the supplied closure `f` with an `and_then` to each element,
    /// where `f` takes `T` by reference.
    pub fn and_then_ref<'a, U, F: Fn(&'a T) -> Option<U>>(&'a self, f: F) -> (r: HexNeighbors<U>)
        requires
            forall|loc: HexRowDirection| #![trigger self.at(loc)]
                self.at(loc) matches Some(v) ==> f.requires((&v,)),
        ensures
            forall|loc: HexRowDirection| #![trigger r.at(loc)]
                match self.at(loc) {
                    Some(v) => f.ensures((&v,), r.at(loc)),
                    None => r.at(loc) is None,
                },
    {
        proof {
            self.lemma_fields();
        }
        HexNeighbors {
            north: option_and_then(self.north.as_ref(), &f),
            north_west: option_and_then(self.north_west.as_ref(), &f),
            south_west: option_and_then(self.south_west.as_ref(), &f),
            south: option_and_then(self.south.as_ref(), &f),
            south_east: option_and_then(self.south_east.as_ref(), &f),
            north_east: option_and_then(self.north_east.as_ref(), &f),
        }
    }

    /// Applies the supplied closure `f` with a `map` to each element, where
    /// `f` takes `T` by reference.
    pub fn map_ref<'a, U, F: Fn(&'a T) -> U>(&'a self, f: F) -> (r: HexNeighbors<U>)
        requires
            forall|loc: HexRowDirection| #![trigger self.at(loc)]
                self.at(loc) matches Some(v) ==> f.requires((&v,)),
        ensures
            forall|loc: HexRowDirection| #![trigger r.at(loc)]
                match self.at(loc) {
                    Some(v) => r.at(loc) matches Some(u) && f.ensures((&v,), u),
                    None => r.at(loc) is None,
                },
    {
        proof {
            self.lemma_fields();
        }
        HexNeighbors {
            north: option_map(self.north.as_ref(), &f),
            north_west: option_map(self.north_west.as_ref(), &f),
            south_west: option_map(self.south_west.as_ref(), &f),
            south: option_map(self.south.as_ref(), &f),
            south_east: option_map(self.south_east.as_ref(), &f),
            north_east: option_map(self.north_east.as_ref(), &f),
        }
    }

    /// Generates a `HexNeighbors<T>` from a closure that takes a direction and
    /// outputs `Option<T>`; the closure is called once for each direction.
    pub fn from_directional_closure<F: Fn(HexRowDirection) -> Option<T>>(f: F) -> (r: HexNeighbors<T>)
        requires
            forall|loc: HexRowDirection| #[trigger] f.requires((loc,)),
        ensures
            forall|loc: HexRowDirection| #[trigger] f.ensures((loc,), r.at(loc)),
    {
        let mut result: HexNeighbors<T> = HexNeighbors::empty();
        let directions = HexRowDirection::variants();
        let mut i: usize = 0;
        while i < directions.len()
            invariant
                i <= directions@.len(),
                directions@ == neighbor_directions(),
                forall|loc: HexRowDirection| #[trigger] f.requires((loc,)),
                forall|j: int| 0 <= j < i ==> f.ensures((directions@[j],), #[trigger] result.at(directions@[j])),
                forall|j: int| i <= j < 6 ==> #[trigger] result.at(directions@[j]) is None,
            decreases directions@.len() - i,
        {
            let direction = directions[i];
            let value = f(direction);
            *(result.slot_mut(direction)) = value;
            proof {
                lemma_neighbor_directions(direction);
                assert forall|j: int| 0 <= j < 6 && j != i implies directions@[j] != direction by {}
            }
            i = i + 1;
        }
        proof {
            assert forall|loc: HexRowDirection| #[trigger] f.ensures((loc,), result.at(loc)) by {
                lemma_neighbor_directions(loc);
                let j = choose|j: int| 0 <= j < 6 && directions@[j] == loc;
            }
        }
        result
    }
}

impl<T> HexNeighbors<T> {
    /// Filter using a set of neighboring booleans: where the filter is `true`,
    /// return whatever data `self` contains at that direction, otherwise
    /// `None`.
    ///
    /// `default_none` is the filter value used where the filter has no
    /// data.
    pub fn apply_filter<'a>(
        &'a self,
        hex_filter: &HexNeighbors<MapData<bool>>,
        default_none: bool,
    ) -> (r: HexNeighbors<&'a T>)
        ensures
            forall|loc: HexRowDirection| #[trigger]
                r.at(loc) == (if filter_passes(hex_filter.at(loc), default_none) {
                    as_ref_spec(self.at(loc))
                } else {
                    None
                }),
    {
        let mut result: HexNeighbors<&'a T> = HexNeighbors::empty();
        let directions = HexRowDirection::variants();
        let mut i: usize = 0;
        while i < directions.len()
            invariant
                i <= directions@.len(),
                directions@ == neighbor_directions(),
                forall|j: int|
                    0 <= j < i ==> #[trigger] result.at(directions@[j]) == (if filter_passes(
                        hex_filter.at(directions@[j]),
                        default_none,
                    ) {
                        as_ref_spec(self.at(directions@[j]))
                    } else {
                        None
                    }),
            decreases directions@.len() - i,
        {
            let direction = directions[i];
            let passes = match hex_filter.get(direction) {
                Some(filter_data) => *filter_data.read(),
                None => default_none,
            };
            let value = if passes {
                self.get(direction)
            } else {
                None
            };
            *(result.slot_mut(direction)) = value;
            proof {
                lemma_neighbor_directions(direction);
                assert forall|j: int| 0 <= j < 6 && j != i implies directions@[j] != direction by {}
            }
            i = i + 1;
        }
        proof {
            assert forall|loc: HexRowDirection| #[trigger] result.at(loc) == (if filter_passes(
                hex_filter.at(loc),
                default_none,
            ) {
                as_ref_spec(self.at(loc))
            } else {
                None
            }) by {
                lemma_neighbor_directions(loc);
                let j = choose|j: int| 0 <= j < 6 && directions@[j] == loc;
            }
        }
        result
    }
}

impl<'a, T: Clone> HexNeighbors<&'a T> {
    /// Clone the referenced data.
    pub fn cloned(&self) -> (r: HexNeighbors<T>)
        ensures
            forall|loc: HexRowDirection| #![trigger r.at(loc)]
                match self.at(loc) {
                    Some(x) => r.at(loc) matches Some(y) && vstd::pervasive::cloned(*x, y),
                    None => r.at(loc) is None,
                },
    {
        proof {
            self.lemma_fields();
        }
        HexNeighbors {
            north: clone_ref(self.north),
            north_west: clone_ref(self.north_west),
            south_west: clone_ref(self.south_west),
            south: clone_ref(self.south),
            south_east: clone_ref(self.south_east),
            north_east: clone_ref(self.north_east),
        }
    }
}

impl<T> Default for HexNeighbors<T> {
    fn default() -> (p: HexNeighbors<T>)
        ensures
            forall|loc: HexRowDirection| #[trigger] p.at(loc) is None,
    {
        HexNeighbors::empty()
    }
}

impl HexNeighbors<TilePos> {
    /// Returns neighboring tile positions.
    ///
    /// A tile position will be `None` for a particular direction, if that
    /// neighbor would not lie on the map.
    pub fn get_neighbors(center_position: &TilePos, map_geometry: &MapGeometry) -> (r: HexNeighbors<
        TilePos,
    >)
        requires
            center_position.neighbors_fit(),
        ensures
            forall|loc: HexRowDirection| #[trigger]
                r.at(loc) == (if map_geometry.spec_is_valid(center_position.spec_neighbor(loc.spec_direction())) {
                    Some(center_position.spec_neighbor(loc.spec_direction()))
                } else {
                    None
                }),
    {
        let center = *center_position;
        let mut result: HexNeighbors<TilePos> = HexNeighbors::empty();
        let directions = HexRowDirection::variants();
        let mut i: usize = 0;
        while i < directions.len()
            invariant
                i <= directions@.len(),
                directions@ == neighbor_directions(),
                center.neighbors_fit(),
                forall|j: int|
                    0 <= j < i ==> #[trigger] result.at(directions@[j]) == (if map_geometry.spec_is_valid(
                        center.spec_neighbor(directions@[j].spec_direction()),
                    ) {
                        Some(center.spec_neighbor(directions@[j].spec_direction()))
                    } else {
                        None
                    }),
            decreases directions@.len() - i,
        {
            let direction = directions[i];
            let tile_pos = center.neighbor(direction.direction());
            let value = if map_geometry.is_valid(tile_pos) {
                Some(tile_pos)
            } else {
                None
            };
            *(result.slot_mut(direction)) = value;
            proof {
                lemma_neighbor_directions(direction);
                assert forall|j: int| 0 <= j < 6 && j != i implies directions@[j] != direction by {}
            }
            i = i + 1;
        }
        proof {
            assert forall|loc: HexRowDirection| #[trigger] result.at(loc) == (if map_geometry.spec_is_valid(
                center.spec_neighbor(loc.spec_direction()),
            ) {
                Some(center.spec_neighbor(loc.spec_direction()))
            } else {
                None
            }) by {
                lemma_neighbor_directions(loc);
                let j = choose|j: int| 0 <= j < 6 && directions@[j] == loc;
            }
        }
        result
    }

    /// Choose a random tile among the positions present in the neighbor set.
    pub fn choose_random(&self, rng: &mut rand::rngs::ThreadRng) -> (r: Option<TilePos>)
        ensures
            r is None <==> self.values().len() == 0,
            r matches Some(p) ==> self.values().contains(p),
    {
        let refs = self.iter();
        let mut possible_choices: Vec<TilePos> = Vec::new();
        let mut i: usize = 0;
        while i < refs.len()
            invariant
                i <= refs@.len(),
                refs@.len() == self.values().len(),
                forall|j: int| 0 <= j < refs@.len() ==> *refs@[j] == self.values()[j],
                possible_choices@ == self.values().take(i as int),
            decreases refs@.len() - i,
        {
            possible_choices.push(*refs[i]);
            assert(possible_choices@ =~= self.values().take(i + 1));
            i = i + 1;
        }
        assert(possible_choices@ =~= self.values());
        crate::random::choose_one(rng, &possible_choices)
    }
}

} // verus!
