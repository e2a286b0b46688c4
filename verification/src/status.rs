//! Which statuses are shown to the player.

use vstd::prelude::*;

verus! {

/// Which statuses are displayed.
#[derive(Debug, Clone, Copy, PartialEq, Eq, Hash, Structural)]
pub enum StatusVisualization {
    /// Don't display the status.
    Off,
    /// Only display the status of structures.
    Structures,
    /// Only display the status of units.
    Units,
    /// Only display the status of terraforming actions.
    Terraforming,
    /// Display all statuses.
    All,
}

impl Default for StatusVisualization {
    fn default() -> (s: StatusVisualization)
        ensures
            s == StatusVisualization::Off,
    {
        StatusVisualization::Off
    }
}

impl StatusVisualization {
    /// The option that follows this one.
    pub open spec fn spec_next(self) -> StatusVisualization {
        match self {
            StatusVisualization::Off => StatusVisualization::Structures,
            StatusVisualization::Structures => StatusVisualization::Units,
            StatusVisualization::Units => StatusVisualization::Terraforming,
            StatusVisualization::Terraforming => StatusVisualization::All,
            StatusVisualization::All => StatusVisualization::Off,
        }
    }

    /// Cycles to the next option.
    pub fn cycle(&mut self)
        ensures
            *final(self) == old(self).spec_next(),
    {
        *self = match *self {
            StatusVisualization::Off => StatusVisualization::Structures,
            StatusVisualization::Structures => StatusVisualization::Units,
            StatusVisualization::Units => StatusVisualization::Terraforming,
            StatusVisualization::Terraforming => StatusVisualization::All,
            StatusVisualization::All => StatusVisualization::Off,
        };
    }

    /// Returns true if the status of structures should be displayed.
    pub fn structures_enabled(&self) -> (b: bool)
        ensures
            b == (*self == StatusVisualization::Structures || *self == StatusVisualization::All),
    {
        match self {
            StatusVisualization::Off => false,
            StatusVisualization::Structures => true,
            StatusVisualization::Units => false,
            StatusVisualization::Terraforming => false,
            StatusVisualization::All => true,
        }
    }

    /// Returns true if the status of units should be displayed.
    pub fn units_enabled(&self) -> (b: bool)
        ensures
            b == (*self == StatusVisualization::Units || *self == StatusVisualization::All),
    {
        match self {
            StatusVisualization::Off => false,
            StatusVisualization::Structures => false,
            StatusVisualization::Units => true,
            StatusVisualization::Terraforming => false,
            StatusVisualization::All => true,
        }
    }

    /// Returns true if the status of terraforming actions should be displayed.
    pub fn terraforming_enabled(&self) -> (b: bool)
        ensures
            b == (*self == StatusVisualization::Terraforming || *self == StatusVisualization::All),
    {
        match self {
            StatusVisualization::Off => false,
            StatusVisualization::Structures => false,
            StatusVisualization::Units => false,
            StatusVisualization::Terraforming => true,
            StatusVisualization::All => true,
        }
    }
}

/// Cycling goes through all five options and comes back after five steps.
pub proof fn law_cycle_returns_after_five(s: StatusVisualization)
    ensures
        s.spec_next().spec_next().spec_next().spec_next().spec_next() == s,
        s.spec_next() != s,
{
}

} // verus!
