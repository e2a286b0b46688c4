//! Ghosts and previews: structures that are planned or held by the player
//! before being built.

use crate::footprint::{normalizable, normalized_set, Footprint};
use crate::geometry::MapGeometry;
use crate::tile::{Facing, TilePos};
use vstd::prelude::*;

verus! {

/// The variety of ghostly structure.
#[derive(Debug, Clone, Copy, PartialEq, Eq, Hash, Structural)]
pub enum GhostKind {
    /// A structure that is going to be built.
    Planned,
    /// A ghost, but currently selected
    SelectedGhost,
    /// A structure that players are holding in their clipboard and planning to place
    Preview,
    /// A preview that cannot be built in its current location
    ForbiddenPreview,
}

impl MapGeometry {
    /// How a structure that the player holds would be previewed at
    /// `center`: not at all off the map, as a forbidden preview when a tile of
    /// its footprint already holds a structure, as a plain preview otherwise.
    pub fn preview_kind(&self, center: TilePos, footprint: &Footprint, facing: Facing) -> (k: Option<
        GhostKind,
    >)
        requires
            self.wf(),
            center.cubic_fits(),
            normalizable(footprint@, facing, center),
        ensures
            !self.spec_is_valid(center) ==> k is None,
            self.spec_is_valid(center) ==> k == Some(
                if forall|q: TilePos| #[trigger]
                    normalized_set(footprint@, facing, center).contains(q)
                        ==> !self.structures().contains_key(q) {
                    GhostKind::Preview
                } else {
                    GhostKind::ForbiddenPreview
                },
            ),
    {
        if !self.is_valid(center) {
            return None;
        }
        let forbidden = !self.is_space_available(center, footprint, facing);
        if forbidden {
            Some(GhostKind::ForbiddenPreview)
        } else {
            Some(GhostKind::Preview)
        }
    }
}

} // verus!
