//! The overall size of the map and the indexes of what stands on each tile.

use crate::collections::{without_value, TileMap, TileSet};
use crate::footprint::{normalizable, normalized_set, Footprint};
use crate::hexx_ops::{hex_distance, hex_ring, hexagon, hexagon_fits, in_hexagon, ordered_by_x_then_y};
use crate::tile::{Direction, Entity, Facing, TilePos};
use vstd::prelude::*;

verus! {

/// The value of `r as i32`: `u32` values above `i32::MAX` wrap around to negative numbers.
pub open spec fn radius_as_i32(r: u32) -> int {
    if r <= i32::MAX {
        r as int
    } else {
        r - 0x1_0000_0000
    }
}

/// A [`MapGeometry`] index was missing an entry.
#[derive(Debug, PartialEq, Eq, Structural)]
pub struct IndexError {
    /// The tile position that was missing.
    pub tile_pos: TilePos,
}

/// Whether a unit is dropping an item off or picking one up.
#[derive(Debug, Clone, Copy, PartialEq, Eq, Structural)]
pub enum DeliveryMode {
    /// The unit is delivering an item.
    DropOff,
    /// The unit is collecting an item.
    PickUp,
}

/// How full an inventory is.
#[derive(Debug, Clone, Copy, PartialEq, Eq, Structural)]
pub enum InventoryState {
    /// No items are stored.
    Empty,
    /// Some, but not all, of the space is used.
    Partial,
    /// No more items fit.
    Full,
}

/// `m` with every tile of `tiles` mapped to `e`.
pub open spec fn with_tiles(m: Map<TilePos, Entity>, tiles: Set<TilePos>, e: Entity) -> Map<
    TilePos,
    Entity,
> {
    Map::new(
        |q: TilePos| m.contains_key(q) || tiles.contains(q),
        |q: TilePos|
            if tiles.contains(q) {
                e
            } else {
                m[q]
            },
    )
}

/// What removing the entity found at `tile_pos` does to an index: if an entity
/// is stored there, every tile that stores it is cleared.
pub open spec fn after_removal(m: Map<TilePos, Entity>, tile_pos: TilePos) -> Map<TilePos, Entity> {
    if m.contains_key(tile_pos) {
        without_value(m, m[tile_pos])
    } else {
        m
    }
}

/// Every tile of a footprint placed at `center` with `facing` can be computed
/// without overflow and tested against the map radius.
pub open spec fn footprint_fits(footprint: Set<TilePos>, facing: Facing, center: TilePos) -> bool {
    &&& normalizable(footprint, facing, center)
    &&& forall|q: TilePos| #[trigger]
        normalized_set(footprint, facing, center).contains(q) ==> q.cubic_fits()
}

/// The entity stored at `k`, if any.
pub open spec fn lookup(m: Map<TilePos, Entity>, k: TilePos) -> Option<Entity> {
    if m.contains_key(k) {
        Some(m[k])
    } else {
        None
    }
}

/// The sequence holding the value of `o`, if any.
pub open spec fn opt_seq(o: Option<Entity>) -> Seq<Entity> {
    match o {
        Some(e) => seq![e],
        None => Seq::empty(),
    }
}

/// The overall size and arrangement of the map, and what stands on each tile.
#[derive(Debug)]
pub struct MapGeometry {
    /// The number of tiles from the center to the edge of the map.
    ///
    /// Note that the central tile is not counted.
    radius: u32,
    /// Which terrain entity is stored at each tile position
    terrain_index: TileMap<Entity>,
    /// Which structure entity is stored at each tile position
    structure_index: TileMap<Entity>,
    /// Which ghost structure entity is stored at each tile position
    ghost_structure_index: TileMap<Entity>,
    /// Which ghost terrain entity is stored at each tile position
    ghost_terrain_index: TileMap<Entity>,
    /// The set of tiles that cannot be traversed by units due to structures.
    impassable_structure_tiles: TileSet,
    /// The set of tiles that cannot be traversed by units due to litter.
    impassable_litter_tiles: TileSet,
    /// Tracks any current wormholes, and their destinations.
    ///
    /// The key is the tile position of the wormhole's entrance.
    /// The value is the tile position of the wormhole's exit.
    wormhole_index: TileMap<TilePos>,
}

impl MapGeometry {
    /// All indexes are internally consistent.
    pub closed spec fn wf(&self) -> bool {
        &&& self.terrain_index.wf()
        &&& self.structure_index.wf()
        &&& self.ghost_structure_index.wf()
        &&& self.ghost_terrain_index.wf()
        &&& self.impassable_structure_tiles.wf()
        &&& self.impassable_litter_tiles.wf()
        &&& self.wormhole_index.wf()
    }

    /// The number of tiles from the center to the edge of the map.
    pub closed spec fn spec_radius(&self) -> u32 {
        self.radius
    }

    /// Which terrain entity is stored at each tile.
    pub closed spec fn terrain(&self) -> Map<TilePos, Entity> {
        self.terrain_index@
    }

    /// Which structure entity is stored at each tile.
    pub closed spec fn structures(&self) -> Map<TilePos, Entity> {
        self.structure_index@
    }

    /// Which ghost structure entity is stored at each tile.
    pub closed spec fn ghost_structures(&self) -> Map<TilePos, Entity> {
        self.ghost_structure_index@
    }

    /// Which ghost terrain entity is stored at each tile.
    pub closed spec fn ghost_terrain(&self) -> Map<TilePos, Entity> {
        self.ghost_terrain_index@
    }

    /// The tiles that units cannot cross because of structures.
    pub closed spec fn impassable_structures(&self) -> Set<TilePos> {
        self.impassable_structure_tiles@
    }

    /// The tiles that units cannot cross because of litter.
    pub closed spec fn impassable_litter(&self) -> Set<TilePos> {
        self.impassable_litter_tiles@
    }

    /// The wormhole entrances and their exits.
    pub closed spec fn wormholes(&self) -> Map<TilePos, TilePos> {
        self.wormhole_index@
    }

    /// Is `tile_pos` within the radius of the map?
    pub open spec fn spec_is_valid(&self, tile_pos: TilePos) -> bool {
        tile_pos.spec_distance(TilePos::spec_zero()) <= radius_as_i32(self.spec_radius())
    }

    /// Creates a new [`MapGeometry`] of the provided radius.
    ///
    /// All indexes will be empty.
    pub fn new(radius: u32) -> (g: MapGeometry)
        ensures
            g.wf(),
            g.spec_radius() == radius,
            g.terrain() == Map::<TilePos, Entity>::empty(),
            g.structures() == Map::<TilePos, Entity>::empty(),
            g.ghost_structures() == Map::<TilePos, Entity>::empty(),
            g.ghost_terrain() == Map::<TilePos, Entity>::empty(),
            g.impassable_structures() == Set::<TilePos>::empty(),
            g.impassable_litter() == Set::<TilePos>::empty(),
            g.wormholes() == Map::<TilePos, TilePos>::empty(),
    {
        MapGeometry {
            radius,
            terrain_index: TileMap::new(),
            structure_index: TileMap::new(),
            ghost_structure_index: TileMap::new(),
            ghost_terrain_index: TileMap::new(),
            impassable_structure_tiles: TileSet::new(),
            impassable_litter_tiles: TileSet::new(),
            wormhole_index: TileMap::new(),
        }
    }

    /// Gets the radius of the map.
    pub fn radius(&self) -> (r: u32)
        ensures
            r == self.spec_radius(),
    {
        self.radius
    }

    /// The position of the central tile of the map.
    pub fn center(&self) -> (p: TilePos)
        ensures
            p == TilePos::spec_zero(),
    {
        TilePos::zero()
    }

    /// Computes the number of positions that exist in this map,
    /// `1 + 6 * (r (r + 1) / 2)`.
    pub fn n_positions(&self) -> (n: usize)
        requires
            self.spec_radius() * (self.spec_radius() + 1) <= u32::MAX,
            1 + 6 * ((self.spec_radius() * (self.spec_radius() + 1)) / 2) <= usize::MAX,
        ensures
            n == 1 + 6 * ((self.spec_radius() * (self.spec_radius() + 1)) / 2),
    {
        let r = self.radius;
        proof {
            assert(r * (r + 1) <= u32::MAX);
            assert((r * (r + 1)) / 2 <= u32::MAX / 2) by (nonlinear_arith)
                requires
                    r * (r + 1) <= u32::MAX,
            ;
        }
        let half: u32 = (r * (r + 1)) / 2;
        1 + 6 * (half as usize)
    }

    /// Computes the total diameter, in tiles, from end to end of the map.
    pub fn diameter(&self) -> (d: u32)
        requires
            2 * self.spec_radius() + 1 <= u32::MAX,
        ensures
            d == 2 * self.spec_radius() + 1,
    {
        2 * self.radius + 1
    }

    /// Returns the list of valid tile positions, each once.
    pub fn valid_tile_positions(&self) -> (v: Vec<TilePos>)
        requires
            hexagon_fits(TilePos::spec_zero(), self.spec_radius()),
        ensures
            v@.no_duplicates(),
            ordered_by_x_then_y(v@),
            v@.len() == 3 * self.spec_radius() * (self.spec_radius() + 1) + 1,
            forall|p: TilePos| #[trigger]
                v@.contains(p) <==> in_hexagon(p, TilePos::spec_zero(), self.spec_radius() as int),
    {
        hexagon(TilePos::zero(), self.radius)
    }

    /// Is the provided `tile_pos` in the map?
    pub fn is_valid(&self, tile_pos: TilePos) -> (b: bool)
        requires
            tile_pos.cubic_fits(),
        ensures
            b == self.spec_is_valid(tile_pos),
    {
        let distance = hex_distance(TilePos::zero(), tile_pos);
        let r = self.radius;
        proof {
            assert(r > 0x7fff_ffffu32 ==> (r as i32) == r - 0x1_0000_0000) by (bit_vector);
            assert(tile_pos.spec_distance(TilePos::spec_zero()) == TilePos::spec_zero().spec_distance(
                tile_pos,
            ));
        }
        distance <= r as i32
    }

    /// The indexes other than the terrain index are equal in `self` and `other`.
    pub open spec fn same_except_terrain(&self, other: &MapGeometry) -> bool {
        &&& self.spec_radius() == other.spec_radius()
        &&& self.structures() == other.structures()
        &&& self.ghost_structures() == other.ghost_structures()
        &&& self.ghost_terrain() == other.ghost_terrain()
        &&& self.impassable_structures() == other.impassable_structures()
        &&& self.impassable_litter() == other.impassable_litter()
        &&& self.wormholes() == other.wormholes()
    }

    /// The indexes other than the structure indexes are equal in `self` and `other`.
    pub open spec fn same_except_structures(&self, other: &MapGeometry) -> bool {
        &&& self.spec_radius() == other.spec_radius()
        &&& self.terrain() == other.terrain()
        &&& self.ghost_structures() == other.ghost_structures()
        &&& self.ghost_terrain() == other.ghost_terrain()
        &&& self.impassable_litter() == other.impassable_litter()
        &&& self.wormholes() == other.wormholes()
    }

    /// The indexes other than the ghost structure index are equal in `self` and `other`.
    pub open spec fn same_except_ghost_structures(&self, other: &MapGeometry) -> bool {
        &&& self.spec_radius() == other.spec_radius()
        &&& self.terrain() == other.terrain()
        &&& self.structures() == other.structures()
        &&& self.ghost_terrain() == other.ghost_terrain()
        &&& self.impassable_structures() == other.impassable_structures()
        &&& self.impassable_litter() == other.impassable_litter()
        &&& self.wormholes() == other.wormholes()
    }

    /// The indexes other than the ghost terrain index are equal in `self` and `other`.
    pub open spec fn same_except_ghost_terrain(&self, other: &MapGeometry) -> bool {
        &&& self.spec_radius() == other.spec_radius()
        &&& self.terrain() == other.terrain()
        &&& self.structures() == other.structures()
        &&& self.ghost_structures() == other.ghost_structures()
        &&& self.impassable_structures() == other.impassable_structures()
        &&& self.impassable_litter() == other.impassable_litter()
        &&& self.wormholes() == other.wormholes()
    }

    /// The indexes other than the litter passability set are equal in `self` and `other`.
    pub open spec fn same_except_litter(&self, other: &MapGeometry) -> bool {
        &&& self.spec_radius() == other.spec_radius()
        &&& self.terrain() == other.terrain()
        &&& self.structures() == other.structures()
        &&& self.ghost_structures() == other.ghost_structures()
        &&& self.ghost_terrain() == other.ghost_terrain()
        &&& self.impassable_structures() == other.impassable_structures()
        &&& self.wormholes() == other.wormholes()
    }

    /// Gets the terrain entity at the provided `tile_pos`, if any.
    pub fn get_terrain(&self, tile_pos: TilePos) -> (r: Option<Entity>)
        requires
            self.wf(),
        ensures
            r == lookup(self.terrain(), tile_pos),
    {
        match self.terrain_index.get(&tile_pos) {
            Some(e) => Some(*e),
            None => None,
        }
    }

    /// Adds the provided `terrain_entity` to the terrain index at the provided `tile_pos`.
    pub fn add_terrain(&mut self, tile_pos: TilePos, terrain_entity: Entity)
        requires
            old(self).wf(),
        ensures
            final(self).wf(),
            final(self).terrain() == old(self).terrain().insert(tile_pos, terrain_entity),
            final(self).same_except_terrain(&*old(self)),
    {
        self.terrain_index.insert(tile_pos, terrain_entity);
    }

    /// Gets the structure entity at the provided `tile_pos`, if any.
    pub fn get_structure(&self, tile_pos: TilePos) -> (r: Option<Entity>)
        requires
            self.wf(),
        ensures
            r == lookup(self.structures(), tile_pos),
    {
        match self.structure_index.get(&tile_pos) {
            Some(e) => Some(*e),
            None => None,
        }
    }

    /// Gets the ghost structure entity at the provided `tile_pos`, if any.
    pub fn get_ghost_structure(&self, tile_pos: TilePos) -> (r: Option<Entity>)
        requires
            self.wf(),
        ensures
            r == lookup(self.ghost_structures(), tile_pos),
    {
        match self.ghost_structure_index.get(&tile_pos) {
            Some(e) => Some(*e),
            None => None,
        }
    }

    /// Gets the ghost terrain entity at the provided `tile_pos`, if any.
    pub fn get_ghost_terrain(&self, tile_pos: TilePos) -> (r: Option<Entity>)
        requires
            self.wf(),
        ensures
            r == lookup(self.ghost_terrain(), tile_pos),
    {
        match self.ghost_terrain_index.get(&tile_pos) {
            Some(e) => Some(*e),
            None => None,
        }
    }

    /// Adds the provided `structure_entity` to the structure index at every tile
    /// of `footprint` placed at `center` with `facing`; unless the structure is
    /// `passable`, those tiles also become impassable.
    pub fn add_structure(
        &mut self,
        facing: Facing,
        center: TilePos,
        footprint: &Footprint,
        passable: bool,
        structure_entity: Entity,
    )
        requires
            old(self).wf(),
            normalizable(footprint@, facing, center),
        ensures
            final(self).wf(),
            final(self).structures() == with_tiles(
                old(self).structures(),
                normalized_set(footprint@, facing, center),
                structure_entity,
            ),
            final(self).impassable_structures() == (if passable {
                old(self).impassable_structures()
            } else {
                old(self).impassable_structures().union(normalized_set(footprint@, facing, center))
            }),
            final(self).same_except_structures(&*old(self)),
    {
        let tiles = footprint.normalized(facing, center).to_vec();
        let ghost target = normalized_set(footprint@, facing, center);
        let ghost m0 = self.structure_index@;
        let ghost s0 = self.impassable_structure_tiles@;
        let mut i: usize = 0;
        assert(with_tiles(m0, tiles@.subrange(0, 0).to_set(), structure_entity) =~= m0);
        assert(s0.union(tiles@.subrange(0, 0).to_set()) =~= s0);
        while i < tiles.len()
            invariant
                i <= tiles@.len(),
                tiles@.to_set() == target,
                self.wf(),
                self.structure_index@ == with_tiles(
                    m0,
                    tiles@.subrange(0, i as int).to_set(),
                    structure_entity,
                ),
                self.impassable_structure_tiles@ == (if passable {
                    s0
                } else {
                    s0.union(tiles@.subrange(0, i as int).to_set())
                }),
                self.same_except_structures(&*old(self)),
            decreases tiles@.len() - i,
        {
            let tile_pos = tiles[i];
            proof {
                assert(tiles@.subrange(0, i + 1) =~= tiles@.subrange(0, i as int).push(tile_pos));
                tiles@.subrange(0, i as int).lemma_push_to_set_commute(tile_pos);
            }
            self.structure_index.insert(tile_pos, structure_entity);
            assert(self.structure_index@ =~= with_tiles(
                m0,
                tiles@.subrange(0, i + 1).to_set(),
                structure_entity,
            ));
            if !passable {
                self.impassable_structure_tiles.insert(tile_pos);
                assert(self.impassable_structure_tiles@ =~= s0.union(
                    tiles@.subrange(0, i + 1).to_set(),
                ));
            }
            i = i + 1;
        }
        assert(tiles@.subrange(0, tiles@.len() as int) =~= tiles@);
    }

    /// Removes any structure entity found at the provided `tile_pos` from the
    /// structure index, together with every other tile that stores the same
    /// entity, and clears the impassable mark of `tile_pos`.
    ///
    /// Returns the removed entity, if any.
    pub fn remove_structure(&mut self, tile_pos: TilePos) -> (removed: Option<Entity>)
        requires
            old(self).wf(),
        ensures
            final(self).wf(),
            removed == lookup(old(self).structures(), tile_pos),
            final(self).structures() == after_removal(old(self).structures(), tile_pos),
            final(self).impassable_structures() == (if removed is Some {
                old(self).impassable_structures().remove(tile_pos)
            } else {
                old(self).impassable_structures()
            }),
            final(self).same_except_structures(&*old(self)),
    {
        let ghost m0 = self.structure_index@;
        let removed = self.structure_index.remove(&tile_pos);
        if let Some(removed_entity) = removed {
            self.structure_index.remove_value(removed_entity);
            self.impassable_structure_tiles.remove(&tile_pos);
            assert(without_value(m0.remove(tile_pos), removed_entity) =~= without_value(
                m0,
                removed_entity,
            ));
        }
        removed
    }

    /// Adds the provided `ghost_structure_entity` to the ghost structure index
    /// at every tile of `footprint` placed at `center` with `facing`.
    pub fn add_ghost_structure(
        &mut self,
        facing: Facing,
        center: TilePos,
        footprint: &Footprint,
        ghost_structure_entity: Entity,
    )
        requires
            old(self).wf(),
            normalizable(footprint@, facing, center),
        ensures
            final(self).wf(),
            final(self).ghost_structures() == with_tiles(
                old(self).ghost_structures(),
                normalized_set(footprint@, facing, center),
                ghost_structure_entity,
            ),
            final(self).same_except_ghost_structures(&*old(self)),
    {
        let tiles = footprint.normalized(facing, center).to_vec();
        let ghost m0 = self.ghost_structure_index@;
        let mut i: usize = 0;
        assert(with_tiles(m0, tiles@.subrange(0, 0).to_set(), ghost_structure_entity) =~= m0);
        while i < tiles.len()
            invariant
                i <= tiles@.len(),
                tiles@.to_set() == normalized_set(footprint@, facing, center),
                self.wf(),
                self.ghost_structure_index@ == with_tiles(
                    m0,
                    tiles@.subrange(0, i as int).to_set(),
                    ghost_structure_entity,
                ),
                self.same_except_ghost_structures(&*old(self)),
            decreases tiles@.len() - i,
        {
            let tile_pos = tiles[i];
            proof {
                assert(tiles@.subrange(0, i + 1) =~= tiles@.subrange(0, i as int).push(tile_pos));
                tiles@.subrange(0, i as int).lemma_push_to_set_commute(tile_pos);
            }
            self.ghost_structure_index.insert(tile_pos, ghost_structure_entity);
            assert(self.ghost_structure_index@ =~= with_tiles(
                m0,
                tiles@.subrange(0, i + 1).to_set(),
                ghost_structure_entity,
            ));
            i = i + 1;
        }
        assert(tiles@.subrange(0, tiles@.len() as int) =~= tiles@);
    }

    /// Removes any ghost structure entity found at the provided `tile_pos`
    /// from the ghost structure index, together with every other tile that
    /// stores the same entity.
    ///
    /// Returns the removed entity, if any.
    pub fn remove_ghost_structure(&mut self, tile_pos: TilePos) -> (removed: Option<Entity>)
        requires
            old(self).wf(),
        ensures
            final(self).wf(),
            removed == lookup(old(self).ghost_structures(), tile_pos),
            final(self).ghost_structures() == after_removal(old(self).ghost_structures(), tile_pos),
            final(self).same_except_ghost_structures(&*old(self)),
    {
        let ghost m0 = self.ghost_structure_index@;
        let removed = self.ghost_structure_index.remove(&tile_pos);
        if let Some(removed_entity) = removed {
            self.ghost_structure_index.remove_value(removed_entity);
            assert(without_value(m0.remove(tile_pos), removed_entity) =~= without_value(
                m0,
                removed_entity,
            ));
        }
        removed
    }

    /// Adds the provided `ghost_terrain_entity` to the ghost terrain index at the provided `tile_pos`.
    pub fn add_ghost_terrain(&mut self, ghost_terrain_entity: Entity, tile_pos: TilePos)
        requires
            old(self).wf(),
        ensures
            final(self).wf(),
            final(self).ghost_terrain() == old(self).ghost_terrain().insert(
                tile_pos,
                ghost_terrain_entity,
            ),
            final(self).same_except_ghost_terrain(&*old(self)),
    {
        self.ghost_terrain_index.insert(tile_pos, ghost_terrain_entity);
    }

    /// Removes any ghost terrain entity found at the provided `tile_pos` from
    /// the ghost terrain index, together with every other tile that stores the
    /// same entity.
    ///
    /// Returns the removed entity, if any.
    pub fn remove_ghost_terrain(&mut self, tile_pos: TilePos) -> (removed: Option<Entity>)
        requires
            old(self).wf(),
        ensures
            final(self).wf(),
            removed == lookup(old(self).ghost_terrain(), tile_pos),
            final(self).ghost_terrain() == after_removal(old(self).ghost_terrain(), tile_pos),
            final(self).same_except_ghost_terrain(&*old(self)),
    {
        let ghost m0 = self.ghost_terrain_index@;
        let removed = self.ghost_terrain_index.remove(&tile_pos);
        if let Some(removed_entity) = removed {
            self.ghost_terrain_index.remove_value(removed_entity);
            assert(without_value(m0.remove(tile_pos), removed_entity) =~= without_value(
                m0,
                removed_entity,
            ));
        }
        removed
    }

    /// Updates the passability of the provided `tile_pos` based on the state
    /// of the litter at that location: only full litter blocks units.
    pub fn update_litter_state(&mut self, tile_pos: TilePos, litter_state: InventoryState)
        requires
            old(self).wf(),
        ensures
            final(self).wf(),
            final(self).impassable_litter() == (if litter_state == InventoryState::Full {
                old(self).impassable_litter().insert(tile_pos)
            } else {
                old(self).impassable_litter().remove(tile_pos)
            }),
            final(self).same_except_litter(&*old(self)),
    {
        match litter_state {
            InventoryState::Empty | InventoryState::Partial => {
                self.impassable_litter_tiles.remove(&tile_pos);
            },
            InventoryState::Full => {
                self.impassable_litter_tiles.insert(tile_pos);
            },
        }
    }

    /// Gets the entities at the provided `tile_pos` that might have or want an item.
    ///
    /// For [`DeliveryMode::DropOff`] these are the structure, the ghost terrain
    /// and the ghost structure; for [`DeliveryMode::PickUp`] the structure, the
    /// ghost terrain and the terrain (litter); in that order, each if present.
    pub fn get_candidates(&self, tile_pos: TilePos, delivery_mode: DeliveryMode) -> (v: Vec<Entity>)
        requires
            self.wf(),
        ensures
            v@ == (match delivery_mode {
                DeliveryMode::DropOff => opt_seq(lookup(self.structures(), tile_pos)) + opt_seq(
                    lookup(self.ghost_terrain(), tile_pos),
                ) + opt_seq(lookup(self.ghost_structures(), tile_pos)),
                DeliveryMode::PickUp => opt_seq(lookup(self.structures(), tile_pos)) + opt_seq(
                    lookup(self.ghost_terrain(), tile_pos),
                ) + opt_seq(lookup(self.terrain(), tile_pos)),
            }),
    {
        let mut entities: Vec<Entity> = Vec::new();
        let structure = self.get_structure(tile_pos);
        let ghost_terrain = self.get_ghost_terrain(tile_pos);
        if let Some(structure_entity) = structure {
            entities.push(structure_entity);
        }
        if let Some(ghost_terrain_entity) = ghost_terrain {
            entities.push(ghost_terrain_entity);
        }
        let third = match delivery_mode {
            DeliveryMode::DropOff => self.get_ghost_structure(tile_pos),
            DeliveryMode::PickUp => self.get_terrain(tile_pos),
        };
        if let Some(entity) = third {
            entities.push(entity);
        }
        assert(entities@ =~= opt_seq(structure) + opt_seq(ghost_terrain) + opt_seq(third));
        entities
    }

    /// Gets entities that units might work at, at the provided `tile_pos`.
    ///
    /// Prioritizes ghosts over structures if both are present to allow for replacing structures.
    pub fn get_workplaces(&self, tile_pos: TilePos) -> (v: Vec<Entity>)
        requires
            self.wf(),
        ensures
            v@ == opt_seq(lookup(self.ghost_structures(), tile_pos)) + opt_seq(
                lookup(self.structures(), tile_pos),
            ),
    {
        let mut entities: Vec<Entity> = Vec::new();
        let ghost_structure = self.get_ghost_structure(tile_pos);
        let structure = self.get_structure(tile_pos);
        if let Some(ghost_structure_entity) = ghost_structure {
            entities.push(ghost_structure_entity);
        }
        if let Some(structure_entity) = structure {
            entities.push(structure_entity);
        }
        assert(entities@ =~= opt_seq(ghost_structure) + opt_seq(structure));
        entities
    }

    /// Are all of the tiles in the `footprint` centered around `center` valid?
    pub fn is_footprint_valid(&self, center: TilePos, footprint: &Footprint, facing: Facing) -> (b:
        bool)
        requires
            footprint_fits(footprint@, facing, center),
        ensures
            b == (forall|q: TilePos| #[trigger]
                normalized_set(footprint@, facing, center).contains(q) ==> self.spec_is_valid(q)),
    {
        let tiles = footprint.normalized(facing, center).to_vec();
        let mut i: usize = 0;
        while i < tiles.len()
            invariant
                i <= tiles@.len(),
                tiles@.to_set() == normalized_set(footprint@, facing, center),
                footprint_fits(footprint@, facing, center),
                forall|j: int| 0 <= j < i ==> self.spec_is_valid(#[trigger] tiles@[j]),
            decreases tiles@.len() - i,
        {
            assert(tiles@.to_set().contains(tiles@[i as int]));
            if !self.is_valid(tiles[i]) {
                return false;
            }
            i = i + 1;
        }
        assert forall|q: TilePos| #[trigger]
            normalized_set(footprint@, facing, center).contains(q) implies self.spec_is_valid(q) by {
            assert(tiles@.contains(q));
        }
        true
    }

    /// Is there enough space for a structure with the provided `footprint`
    /// located at the `center` tile: does no tile of it hold a structure?
    pub fn is_space_available(&self, center: TilePos, footprint: &Footprint, facing: Facing) -> (b:
        bool)
        requires
            self.wf(),
            normalizable(footprint@, facing, center),
        ensures
            b == (forall|q: TilePos| #[trigger]
                normalized_set(footprint@, facing, center).contains(q)
                    ==> !self.structures().contains_key(q)),
    {
        let tiles = footprint.normalized(facing, center).to_vec();
        let mut i: usize = 0;
        while i < tiles.len()
            invariant
                self.wf(),
                i <= tiles@.len(),
                tiles@.to_set() == normalized_set(footprint@, facing, center),
                forall|j: int| 0 <= j < i ==> !self.structures().contains_key(#[trigger] tiles@[j]),
            decreases tiles@.len() - i,
        {
            if self.get_structure(tiles[i]).is_some() {
                assert(tiles@.to_set().contains(tiles@[i as int]));
                return false;
            }
            i = i + 1;
        }
        assert forall|q: TilePos| #[trigger]
            normalized_set(footprint@, facing, center).contains(q) implies !self.structures().contains_key(
            q,
        ) by {
            assert(tiles@.contains(q));
        }
        true
    }

    /// Is there enough space for `existing_entity` to transform into a
    /// structure with the provided `footprint` located at the `center` tile?
    ///
    /// The `existing_entity` is ignored when checking for space; ghost
    /// structures are not.
    pub fn is_space_available_to_transform(
        &self,
        existing_entity: Entity,
        center: TilePos,
        footprint: &Footprint,
        facing: Facing,
    ) -> (b: bool)
        requires
            self.wf(),
            normalizable(footprint@, facing, center),
        ensures
            b == (forall|q: TilePos| #[trigger]
                normalized_set(footprint@, facing, center).contains(q) ==> (lookup(
                    self.structures(),
                    q,
                ) is None || lookup(self.structures(), q) == Some(existing_entity)) && lookup(
                    self.ghost_structures(),
                    q,
                ) is None),
    {
        let tiles = footprint.normalized(facing, center).to_vec();
        let mut i: usize = 0;
        while i < tiles.len()
            invariant
                self.wf(),
                i <= tiles@.len(),
                tiles@.to_set() == normalized_set(footprint@, facing, center),
                forall|j: int|
                    0 <= j < i ==> (lookup(self.structures(), #[trigger] tiles@[j]) is None || lookup(
                        self.structures(),
                        tiles@[j],
                    ) == Some(existing_entity)) && lookup(self.ghost_structures(), tiles@[j]) is None,
            decreases tiles@.len() - i,
        {
            let structure_entity = self.get_structure(tiles[i]);
            let ghost_structure_entity = self.get_ghost_structure(tiles[i]);
            let ok = match structure_entity {
                None => true,
                Some(e) => e == existing_entity,
            } && ghost_structure_entity.is_none();
            if !ok {
                assert(tiles@.to_set().contains(tiles@[i as int]));
                return false;
            }
            i = i + 1;
        }
        assert forall|q: TilePos| #[trigger]
            normalized_set(footprint@, facing, center).contains(q) implies (lookup(
            self.structures(),
            q,
        ) is None || lookup(self.structures(), q) == Some(existing_entity)) && lookup(
            self.ghost_structures(),
            q,
        ) is None by {
            assert(tiles@.contains(q));
        }
        true
    }
}

impl MapGeometry {
    /// Can a structure with `footprint`, turned to `facing`, be spawned at
    /// `center`? The center must lie in the map and no tile of the footprint
    /// may hold a structure already.
    pub fn can_spawn_structure(&self, center: TilePos, footprint: &Footprint, facing: Facing) -> (b:
        bool)
        requires
            self.wf(),
            center.cubic_fits(),
            normalizable(footprint@, facing, center),
        ensures
            b == (self.spec_is_valid(center) && forall|q: TilePos| #[trigger]
                normalized_set(footprint@, facing, center).contains(q)
                    ==> !self.structures().contains_key(q)),
    {
        self.is_valid(center) && self.is_space_available(center, footprint, facing)
    }

    /// The ghost structures that stand on the tiles of `footprint`, turned to
    /// `facing` and placed at `center`: one entry for each such tile that
    /// holds a ghost structure.
    pub fn ghosts_under_footprint(&self, center: TilePos, footprint: &Footprint, facing: Facing) -> (v:
        Vec<Entity>)
        requires
            self.wf(),
            normalizable(footprint@, facing, center),
        ensures
            forall|e: Entity| #[trigger]
                v@.contains(e) <==> exists|q: TilePos|
                    normalized_set(footprint@, facing, center).contains(q) && lookup(
                        self.ghost_structures(),
                        q,
                    ) == Some(e),
            v@.len() == normalized_set(footprint@, facing, center).filter(
                |q: TilePos| self.ghost_structures().contains_key(q),
            ).len(),
    {
        let tiles = footprint.normalized(facing, center).to_vec();
        let ghost set_ghosts = |q: TilePos| self.ghost_structures().contains_key(q);
        let mut ghosts: Vec<Entity> = Vec::new();
        let mut i: usize = 0;
        proof {
            assert(tiles@.subrange(0, 0).to_set().filter(set_ghosts) =~= Set::<TilePos>::empty());
        }
        while i < tiles.len()
            invariant
                self.wf(),
                i <= tiles@.len(),
                tiles@.no_duplicates(),
                tiles@.to_set() == normalized_set(footprint@, facing, center),
                set_ghosts == (|q: TilePos| self.ghost_structures().contains_key(q)),
                forall|e: Entity| #[trigger]
                    ghosts@.contains(e) <==> exists|j: int|
                        0 <= j < i && lookup(self.ghost_structures(), tiles@[j]) == Some(e),
                ghosts@.len() == tiles@.subrange(0, i as int).to_set().filter(set_ghosts).len(),
                tiles@.subrange(0, i as int).to_set().filter(set_ghosts).finite(),
            decreases tiles@.len() - i,
        {
            let q = tiles[i];
            let ghost pre = tiles@.subrange(0, i as int);
            let ghost before = ghosts@;
            assert(tiles@.subrange(0, i + 1) =~= pre.push(q));
            proof {
                pre.lemma_push_to_set_commute(q);
                assert(!pre.contains(q)) by {
                    if pre.contains(q) {
                        let j = choose|j: int| 0 <= j < pre.len() && pre[j] == q;
                        assert(tiles@[j] == tiles@[i as int]);
                    }
                }
            }
            match self.get_ghost_structure(q) {
                Some(e) => {
                    ghosts.push(e);
                    assert(pre.push(q).to_set().filter(set_ghosts) =~= pre.to_set().filter(
                        set_ghosts,
                    ).insert(q));
                },
                None => {
                    assert(pre.push(q).to_set().filter(set_ghosts) =~= pre.to_set().filter(set_ghosts));
                },
            }
            assert forall|e: Entity| #[trigger]
                ghosts@.contains(e) <==> exists|j: int|
                    0 <= j < i + 1 && lookup(self.ghost_structures(), tiles@[j]) == Some(e) by {
                if before.contains(e) {
                    let k = choose|k: int| 0 <= k < before.len() && before[k] == e;
                    assert(ghosts@[k] == e);
                }
                if ghosts@.contains(e) && !before.contains(e) {
                    assert(lookup(self.ghost_structures(), tiles@[i as int]) == Some(e));
                }
                if exists|j: int| 0 <= j < i + 1 && lookup(self.ghost_structures(), tiles@[j]) == Some(
                    e,
                ) {
                    let j = choose|j: int|
                        0 <= j < i + 1 && lookup(self.ghost_structures(), tiles@[j]) == Some(e);
                    if j == i {
                        assert(ghosts@[ghosts@.len() - 1] == e);
                    }
                }
            }
            i = i + 1;
        }
        proof {
            assert(tiles@.subrange(0, tiles@.len() as int) =~= tiles@);
            assert forall|e: Entity| #[trigger]
                ghosts@.contains(e) <==> exists|q: TilePos|
                    normalized_set(footprint@, facing, center).contains(q) && lookup(
                        self.ghost_structures(),
                        q,
                    ) == Some(e) by {
                if ghosts@.contains(e) {
                    let j = choose|j: int|
                        0 <= j < tiles@.len() && lookup(self.ghost_structures(), tiles@[j]) == Some(e);
                    assert(tiles@.to_set().contains(tiles@[j]));
                }
                if exists|q: TilePos|
                    normalized_set(footprint@, facing, center).contains(q) && lookup(
                        self.ghost_structures(),
                        q,
                    ) == Some(e) {
                    let q = choose|q: TilePos|
                        normalized_set(footprint@, facing, center).contains(q) && lookup(
                            self.ghost_structures(),
                            q,
                        ) == Some(e);
                    assert(tiles@.contains(q));
                    let j = choose|j: int| 0 <= j < tiles@.len() && tiles@[j] == q;
                    assert(lookup(self.ghost_structures(), tiles@[j]) == Some(e));
                }
            }
        }
        ghosts
    }
}

impl MapGeometry {
    /// The tiles just outside the map, one step beyond its radius: the ocean
    /// that rings the map, each tile once.
    pub fn ocean_tiles(&self) -> (v: Vec<TilePos>)
        requires
            self.spec_radius() < u32::MAX,
            hexagon_fits(TilePos::spec_zero(), (self.spec_radius() + 1) as u32),
        ensures
            v@.no_duplicates(),
            v@.len() == 6 * (self.spec_radius() + 1),
            forall|i: int|
                0 <= i < v@.len() ==> (#[trigger] v@[i]).spec_distance(TilePos::spec_zero())
                    == self.spec_radius() + 1,
    {
        hex_ring(TilePos::zero(), self.radius + 1)
    }
}

impl MapGeometry {
    /// Can a unit step from `starting_pos` to `ending_pos`? Both tiles must
    /// be in the map, and the ending tile must hold neither a structure nor a
    /// full pile of litter.
    ///
    /// The two checks on heights, which are floating point, come in as their
    /// outcomes: `water_is_shallow` (the surface water at `ending_pos` is at
    /// most wading depth) and `step_is_small` (the height difference between
    /// the tiles is known and at most one step).
    pub fn is_passable(
        &self,
        starting_pos: TilePos,
        ending_pos: TilePos,
        water_is_shallow: bool,
        step_is_small: bool,
    ) -> (b: bool)
        requires
            self.wf(),
            starting_pos.cubic_fits(),
            ending_pos.cubic_fits(),
        ensures
            b == (self.spec_is_valid(starting_pos) && self.spec_is_valid(ending_pos)
                && !self.structures().contains_key(ending_pos)
                && !self.impassable_litter().contains(ending_pos) && water_is_shallow
                && step_is_small),
    {
        if !self.is_valid(starting_pos) {
            return false;
        }
        if !self.is_valid(ending_pos) {
            return false;
        }
        if self.structure_index.contains_key(&ending_pos) {
            return false;
        }
        if self.impassable_litter_tiles.contains(&ending_pos) {
            return false;
        }
        if !water_is_shallow {
            return false;
        }
        step_is_small
    }

    /// Can the structure with the provided `footprint` be built at the
    /// `center` tile? The area must be in the map, flat, free of structures
    /// and free of surface water.
    ///
    /// Flatness and water are judged on floating-point heights; they come in
    /// as their outcomes `terrain_is_flat` and `free_of_water`.
    pub fn can_build(
        &self,
        center: TilePos,
        footprint: &Footprint,
        facing: Facing,
        terrain_is_flat: bool,
        free_of_water: bool,
    ) -> (b: bool)
        requires
            self.wf(),
            footprint_fits(footprint@, facing, center),
        ensures
            b == ((forall|q: TilePos| #[trigger]
                normalized_set(footprint@, facing, center).contains(q) ==> self.spec_is_valid(q))
                && terrain_is_flat && (forall|q: TilePos| #[trigger]
                normalized_set(footprint@, facing, center).contains(q)
                    ==> !self.structures().contains_key(q)) && free_of_water),
    {
        self.is_footprint_valid(center, footprint, facing) && terrain_is_flat
            && self.is_space_available(center, footprint, facing) && free_of_water
    }

    /// Can the `existing_entity` transform into a structure with the provided
    /// `footprint` at the `center` tile? The area must be in the map, flat, and
    /// free of structures other than `existing_entity` and of ghost
    /// structures.
    ///
    /// Flatness is judged on floating-point heights; it comes in as its
    /// outcome `terrain_is_flat`.
    pub fn can_transform(
        &self,
        existing_entity: Entity,
        center: TilePos,
        footprint: &Footprint,
        facing: Facing,
        terrain_is_flat: bool,
    ) -> (b: bool)
        requires
            self.wf(),
            footprint_fits(footprint@, facing, center),
        ensures
            b == ((forall|q: TilePos| #[trigger]
                normalized_set(footprint@, facing, center).contains(q) ==> self.spec_is_valid(q))
                && terrain_is_flat && (forall|q: TilePos| #[trigger]
                normalized_set(footprint@, facing, center).contains(q) ==> (lookup(
                    self.structures(),
                    q,
                ) is None || lookup(self.structures(), q) == Some(existing_entity)) && lookup(
                    self.ghost_structures(),
                    q,
                ) is None)),
    {
        self.is_footprint_valid(center, footprint, facing) && terrain_is_flat
            && self.is_space_available_to_transform(existing_entity, center, footprint, facing)
    }
}

/// `m` without the entries whose value is in `es`.
pub open spec fn without_values(m: Map<TilePos, Entity>, es: Set<Entity>) -> Map<TilePos, Entity> {
    Map::new(|k: TilePos| m.contains_key(k) && !es.contains(m[k]), |k: TilePos| m[k])
}

impl MapGeometry {
    /// Places the ghost structure `ghost_entity` with `footprint`, turned to
    /// `facing`, at `center`: every ghost structure standing on one of its
    /// tiles is removed first, from all of the tiles it covers. Returns the
    /// removed ghosts, one entry for each footprint tile that held one.
    pub fn place_ghost_structure(
        &mut self,
        center: TilePos,
        footprint: &Footprint,
        facing: Facing,
        ghost_entity: Entity,
    ) -> (replaced: Vec<Entity>)
        requires
            old(self).wf(),
            normalizable(footprint@, facing, center),
        ensures
            final(self).wf(),
            forall|e: Entity| #[trigger]
                replaced@.contains(e) <==> exists|q: TilePos|
                    normalized_set(footprint@, facing, center).contains(q) && lookup(
                        old(self).ghost_structures(),
                        q,
                    ) == Some(e),
            replaced@.len() == normalized_set(footprint@, facing, center).filter(
                |q: TilePos| old(self).ghost_structures().contains_key(q),
            ).len(),
            final(self).ghost_structures() == with_tiles(
                without_values(old(self).ghost_structures(), replaced@.to_set()),
                normalized_set(footprint@, facing, center),
                ghost_entity,
            ),
            final(self).same_except_ghost_structures(&*old(self)),
    {
        let existing_ghosts = self.ghosts_under_footprint(center, footprint, facing);
        let ghost m0 = self.ghost_structure_index@;
        let mut i: usize = 0;
        assert(without_values(m0, existing_ghosts@.subrange(0, 0).to_set()) =~= m0);
        while i < existing_ghosts.len()
            invariant
                self.wf(),
                i <= existing_ghosts@.len(),
                self.same_except_ghost_structures(&*old(self)),
                m0 == old(self).ghost_structures(),
                self.ghost_structures() == without_values(
                    m0,
                    existing_ghosts@.subrange(0, i as int).to_set(),
                ),
            decreases existing_ghosts@.len() - i,
        {
            let ghost prefix = existing_ghosts@.subrange(0, i as int);
            let e = existing_ghosts[i];
            self.ghost_structure_index.remove_value(e);
            proof {
                assert(existing_ghosts@.subrange(0, i + 1) =~= prefix.push(e));
                prefix.lemma_push_to_set_commute(e);
                assert(without_value(without_values(m0, prefix.to_set()), e) =~= without_values(
                    m0,
                    prefix.to_set().insert(e),
                ));
            }
            i = i + 1;
        }
        assert(existing_ghosts@.subrange(0, existing_ghosts@.len() as int) =~= existing_ghosts@);
        self.add_ghost_structure(facing, center, footprint, ghost_entity);
        existing_ghosts
    }
}

/// After a ghost is placed, every tile of its footprint holds it, and no
/// replaced ghost is left on any other tile.
pub proof fn law_placed_ghost_replaces_old(
    m: Map<TilePos, Entity>,
    replaced: Set<Entity>,
    tiles: Set<TilePos>,
    g: Entity,
    q: TilePos,
)
    ensures
        ({
            let after = with_tiles(without_values(m, replaced), tiles, g);
            &&& tiles.contains(q) ==> lookup(after, q) == Some(g)
            &&& !tiles.contains(q) && after.contains_key(q) ==> !replaced.contains(after[q])
                && lookup(m, q) == Some(after[q])
        }),
{
}

/// The number of positions that [`MapGeometry::n_positions`] computes,
/// `1 + 6 * (r (r + 1) / 2)`, is the number of tiles of a map of radius `r`,
/// `3 r (r + 1) + 1`, which [`MapGeometry::valid_tile_positions`] lists.
pub proof fn law_n_positions_counts_tiles(r: int)
    requires
        r >= 0,
    ensures
        3 * r * (r + 1) + 1 == 1 + 6 * ((r * (r + 1)) / 2),
{
    let k = r / 2;
    if r % 2 == 0 {
        assert(r * (r + 1) == 2 * (k * (r + 1))) by (nonlinear_arith)
            requires
                r == 2 * k,
        ;
    } else {
        assert(r * (r + 1) == 2 * (r * (k + 1))) by (nonlinear_arith)
            requires
                r == 2 * k + 1,
        ;
    }
    assert(3 * r * (r + 1) == 3 * (r * (r + 1))) by (nonlinear_arith);
}

/// After a structure is added, every tile of its footprint stores it, and
/// every other tile keeps what it stored before.
pub proof fn law_add_structure_covers_footprint(
    m: Map<TilePos, Entity>,
    tiles: Set<TilePos>,
    e: Entity,
    q: TilePos,
)
    ensures
        tiles.contains(q) ==> lookup(with_tiles(m, tiles, e), q) == Some(e),
        !tiles.contains(q) ==> lookup(with_tiles(m, tiles, e), q) == lookup(m, q),
{
}

/// Removing the structure found at any tile of a footprint that was just
/// filled with a structure clears the whole footprint and every other tile of
/// that structure, and leaves the tiles of other structures as they were.
pub proof fn law_remove_after_add_clears_footprint(
    m: Map<TilePos, Entity>,
    tiles: Set<TilePos>,
    e: Entity,
    t: TilePos,
    q: TilePos,
)
    requires
        tiles.contains(t),
    ensures
        tiles.contains(q) ==> lookup(after_removal(with_tiles(m, tiles, e), t), q) is None,
        lookup(m, q) == Some(e) ==> lookup(after_removal(with_tiles(m, tiles, e), t), q) is None,
        !tiles.contains(q) && lookup(m, q) != Some(e) ==> lookup(
            after_removal(with_tiles(m, tiles, e), t),
            q,
        ) == lookup(m, q),
{
}

/// Removing a structure leaves no tile storing it.
pub proof fn law_removed_structure_is_gone(m: Map<TilePos, Entity>, t: TilePos, q: TilePos)
    requires
        m.contains_key(t),
    ensures
        lookup(after_removal(m, t), q) != Some(m[t]),
        m.contains_key(q) && m[q] != m[t] ==> lookup(after_removal(m, t), q) == lookup(m, q),
{
}

impl TilePos {
    /// All six neighbors of `self`, in the order of [`Direction::all_directions`].
    ///
    /// This includes neighbors that are not on the map.
    pub fn all_neighbors(&self) -> (v: Vec<TilePos>)
        requires
            self.neighbors_fit(),
        ensures
            v@.len() == 6,
            forall|i: int| #![trigger v@[i]]
                0 <= i < 6 ==> v@[i] == self.spec_neighbor(Direction::spec_from_index(i)),
    {
        let directions = Direction::all_directions();
        let mut v: Vec<TilePos> = Vec::new();
        let mut i: usize = 0;
        while i < 6
            invariant
                i <= 6,
                self.neighbors_fit(),
                directions@.len() == 6,
                forall|j: int| 0 <= j < 6 ==> #[trigger] directions@[j] == Direction::spec_from_index(j),
                v@.len() == i,
                forall|j: int| #![trigger v@[j]]
                    0 <= j < i ==> v@[j] == self.spec_neighbor(Direction::spec_from_index(j)),
            decreases 6 - i,
        {
            v.push(self.neighbor(directions[i]));
            i = i + 1;
        }
        v
    }

    /// All adjacent tiles that are on the map, in the order of [`TilePos::all_neighbors`].
    pub fn all_valid_neighbors(&self, map_geometry: &MapGeometry) -> (v: Vec<TilePos>)
        requires
            self.neighbors_fit(),
        ensures
            v@ == Seq::new(6, |i: int| self.spec_neighbor(Direction::spec_from_index(i))).filter(
                |p: TilePos| map_geometry.spec_is_valid(p),
            ),
    {
        let neighbors = self.all_neighbors();
        assert(neighbors@ =~= Seq::new(6, |i: int| self.spec_neighbor(Direction::spec_from_index(i))));
        let v = filter_tiles(&neighbors, map_geometry, true);
        assert((|p: TilePos| map_geometry.spec_is_valid(p) == true) =~= (|p: TilePos|
            map_geometry.spec_is_valid(p)));
        v
    }

    /// All adjacent tiles that are out of bounds, in the order of [`TilePos::all_neighbors`].
    pub fn out_of_bounds_neighbors(&self, map_geometry: &MapGeometry) -> (v: Vec<TilePos>)
        requires
            self.neighbors_fit(),
        ensures
            v@ == Seq::new(6, |i: int| self.spec_neighbor(Direction::spec_from_index(i))).filter(
                |p: TilePos| !map_geometry.spec_is_valid(p),
            ),
    {
        let neighbors = self.all_neighbors();
        assert(neighbors@ =~= Seq::new(6, |i: int| self.spec_neighbor(Direction::spec_from_index(i))));
        let v = filter_tiles(&neighbors, map_geometry, false);
        assert((|p: TilePos| map_geometry.spec_is_valid(p) == false) =~= (|p: TilePos|
            !map_geometry.spec_is_valid(p)));
        v
    }

    /// Generates a random [`TilePos`], sampled uniformly from the valid
    /// positions in `map_geometry`: one of [`random_candidates`], each of which
    /// is equally likely.
    pub fn random(map_geometry: &MapGeometry, rng: &mut rand::rngs::ThreadRng) -> (p: TilePos)
        requires
            map_geometry.spec_radius() <= 0x3fff_ffff,
        ensures
            map_geometry.spec_is_valid(p),
    {
        let candidates = random_candidates(map_geometry);
        assert(candidates@.contains(TilePos::spec_zero()));
        let chosen = crate::random::choose_one(rng, &candidates);
        chosen.unwrap()
    }
}

/// A valid tile of a map of radius `r` has both coordinates in `-r..=r`.
proof fn lemma_valid_tile_bounds(map_geometry: &MapGeometry, q: TilePos)
    requires
        map_geometry.spec_radius() <= 0x3fff_ffff,
        map_geometry.spec_is_valid(q),
    ensures
        -map_geometry.spec_radius() <= q.x <= map_geometry.spec_radius(),
        -map_geometry.spec_radius() <= q.y <= map_geometry.spec_radius(),
{
}

/// Every tile of the map, each once, ordered by `x` and then by `y`: the
/// positions among which [`TilePos::random`] draws.
pub fn random_candidates(map_geometry: &MapGeometry) -> (v: Vec<TilePos>)
    requires
        map_geometry.spec_radius() <= 0x3fff_ffff,
    ensures
        v@.no_duplicates(),
        forall|p: TilePos| #[trigger] v@.contains(p) <==> map_geometry.spec_is_valid(p),
{
    let r = map_geometry.radius() as i32;
    let mut candidates: Vec<TilePos> = Vec::new();
    let mut x: i32 = -r;
    while x <= r
        invariant
            r == map_geometry.spec_radius(),
            r <= 0x3fff_ffff,
            -r <= x <= r + 1,
            candidates@.no_duplicates(),
            forall|q: TilePos| #[trigger]
                candidates@.contains(q) <==> map_geometry.spec_is_valid(q) && q.x < x,
        decreases r + 1 - x,
    {
        let mut y: i32 = -r;
        while y <= r
            invariant
                r == map_geometry.spec_radius(),
                r <= 0x3fff_ffff,
                -r <= x <= r,
                -r <= y <= r + 1,
                candidates@.no_duplicates(),
                forall|q: TilePos| #[trigger]
                    candidates@.contains(q) <==> map_geometry.spec_is_valid(q) && (q.x < x || (q.x
                        == x && q.y < y)),
            decreases r + 1 - y,
        {
            let proposed_tile = TilePos::new(x, y);
            if map_geometry.is_valid(proposed_tile) {
                let ghost before = candidates@;
                assert(!before.contains(proposed_tile));
                candidates.push(proposed_tile);
                assert forall|q: TilePos| #[trigger] candidates@.contains(q) <==> before.contains(q)
                    || q == proposed_tile by {
                    vstd::seq_lib::lemma_seq_contains_after_push(before, proposed_tile, q);
                }
                assert(candidates@.no_duplicates()) by {
                    let c = candidates@;
                    assert forall|i: int, j: int|
                        0 <= i < c.len() && 0 <= j < c.len() && i != j implies c[i] != c[j] by {
                        if i == before.len() {
                            assert(before.contains(c[j]));
                        } else if j == before.len() {
                            assert(before.contains(c[i]));
                        }
                    }
                }
            }
            y = y + 1;
        }
        assert forall|q: TilePos| #[trigger]
            candidates@.contains(q) <==> map_geometry.spec_is_valid(q) && q.x < x + 1 by {
            if map_geometry.spec_is_valid(q) {
                lemma_valid_tile_bounds(map_geometry, q);
            }
        }
        x = x + 1;
    }
    assert forall|q: TilePos| #[trigger] candidates@.contains(q) <==> map_geometry.spec_is_valid(q) by {
        if map_geometry.spec_is_valid(q) {
            lemma_valid_tile_bounds(map_geometry, q);
        }
    }
    candidates
}

/// The tiles of `tiles` whose validity on the map equals `keep_valid`, in order.
fn filter_tiles(tiles: &Vec<TilePos>, map_geometry: &MapGeometry, keep_valid: bool) -> (v: Vec<
    TilePos,
>)
    requires
        forall|i: int| 0 <= i < tiles@.len() ==> #[trigger] tiles@[i].cubic_fits(),
    ensures
        v@ == tiles@.filter(|p: TilePos| map_geometry.spec_is_valid(p) == keep_valid),
{
    let ghost pred = |p: TilePos| map_geometry.spec_is_valid(p) == keep_valid;
    let mut v: Vec<TilePos> = Vec::new();
    let mut i: usize = 0;
    while i < tiles.len()
        invariant
            i <= tiles@.len(),
            forall|j: int| 0 <= j < tiles@.len() ==> #[trigger] tiles@[j].cubic_fits(),
            pred == (|p: TilePos| map_geometry.spec_is_valid(p) == keep_valid),
            v@ == tiles@.subrange(0, i as int).filter(pred),
        decreases tiles@.len() - i,
    {
        proof {
            let s = tiles@.subrange(0, i + 1);
            assert(s.drop_last() =~= tiles@.subrange(0, i as int));
            reveal_with_fuel(Seq::filter, 1);
        }
        if map_geometry.is_valid(tiles[i]) == keep_valid {
            v.push(tiles[i]);
        }
        i = i + 1;
    }
    assert(tiles@.subrange(0, tiles@.len() as int) =~= tiles@);
    v
}

} // verus!
