//! The unprocessed, write-only description of structure varieties.

use vstd::prelude::*;

verus! {

/// The marker type for identifiers of structure varieties.
#[derive(Debug, Clone, Copy, PartialEq, Eq, Structural)]
pub struct Structure;

/// The unprocessed recipe that a crafting structure starts with: the name of
/// the recipe, if one is pre-selected.
#[derive(Debug, Clone, PartialEq, Eq)]
pub struct RawActiveRecipe(pub Option<String>);

/// The unprocessed equivalent of a structure's kind.
#[derive(Debug, Clone, PartialEq, Eq)]
pub enum RawStructureKind {
    /// Stores items.
    Storage {
        /// The number of slots in the inventory, controlling how large it is.
        max_slot_count: usize,
        /// Is any item allowed here, or just one?
        reserved_for: Option<String>,
    },
    /// Crafts items, turning inputs into outputs.
    Crafting {
        /// Does this structure start with a recipe pre-selected?
        starting_recipe: RawActiveRecipe,
    },
}

} // verus!
