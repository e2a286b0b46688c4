//! Markers and kinds of terrain.

use vstd::prelude::*;

verus! {

/// The marker type for identifiers of terrain varieties.
#[derive(Debug, Clone, Copy, PartialEq, Eq, Structural)]
pub struct Terrain;

/// Component representing plain terrain.
#[derive(Debug, Clone, Copy, PartialEq, Eq, Structural)]
pub struct PlainTerrain;

/// Component representing impassable terrain.
#[derive(Debug, Clone, Copy, PartialEq, Eq, Structural)]
pub struct RockyTerrain;

/// The marker component for impassable terrain.
#[derive(Debug, Clone, Copy, Default, PartialEq, Eq, Structural)]
pub struct ImpassableTerrain;

/// The marker component for high terrain.
#[derive(Debug, Clone, Copy, Default, PartialEq, Eq, Structural)]
pub struct HighTerrain;

/// Available terrain types.
#[derive(Debug, Clone, Copy, Hash, PartialEq, Eq, Structural)]
pub enum TerrainType {
    /// Terrain with no distinguishing characteristics.
    Plain,
    /// Terrain that is impassable.
    Impassable,
    /// Terrain that has higher altitude compared to others.
    High,
}

impl TerrainType {
    /// The set of all possible [`TerrainType`] variants, in declaration order.
    pub fn all_choices() -> (v: Vec<TerrainType>)
        ensures
            v@ == seq![TerrainType::Plain, TerrainType::Impassable, TerrainType::High],
    {
        let v = vec![TerrainType::Plain, TerrainType::Impassable, TerrainType::High];
        assert(v@ =~= seq![TerrainType::Plain, TerrainType::Impassable, TerrainType::High]);
        v
    }
}

} // verus!
