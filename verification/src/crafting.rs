//! Everything needed to make structures able to craft things: the crafting
//! cycle of a structure and the workers present at it.
//!
//! Durations are counted in nanoseconds; a `u128` holds every value of a
//! `Duration`, up to [`max_duration_nanos`].

use crate::geometry::{lookup, MapGeometry};
use crate::tile::{Entity, TilePos};
use vstd::prelude::*;

verus! {

/// The longest duration that can be represented, `u64::MAX` seconds and
/// 999 999 999 nanoseconds, in nanoseconds.
pub open spec fn max_duration_nanos() -> int {
    u64::MAX * 1_000_000_000 + 999_999_999
}

/// The current state in the crafting progress.
#[derive(Debug, Clone, Copy, PartialEq, Eq, Structural)]
pub enum CraftingState {
    /// There are resources missing for the recipe.
    NeedsInput,
    /// The resource cost has been paid and the recipe is being crafted.
    InProgress {
        /// How far through the recipe are we, in nanoseconds?
        progress: u128,
        /// How long does this recipe take to complete in full, in nanoseconds?
        required: u128,
    },
    /// Resources need to be claimed before more crafting can continue.
    FullAndBlocked,
    /// The recipe is complete.
    RecipeComplete,
    /// The output is full but production is continuing.
    Overproduction,
    /// No recipe is set
    NoRecipe,
}

impl Default for CraftingState {
    fn default() -> (s: CraftingState)
        ensures
            s == CraftingState::NeedsInput,
    {
        CraftingState::NeedsInput
    }
}

/// What a crafting step has to find out from the structure's inventories or
/// surroundings before the state can move on.
#[derive(Debug, Clone, Copy, PartialEq, Eq, Structural)]
pub enum CraftingAction {
    /// Nothing: the next state follows from the state and the recipe alone.
    Nothing,
    /// Take the recipe's inputs out of the input inventory, all or nothing;
    /// the outcome is whether that succeeded.
    ConsumeInputs,
    /// Check the recipe's conditions (workers present, light); the outcome is
    /// whether they are satisfied.
    CheckConditions,
    /// Add the recipe's outputs to the output inventory, keeping what fits;
    /// the outcome is whether everything fit.
    StoreOutputs,
    /// Add all of the recipe's outputs to the output inventory or none of
    /// them; the outcome is whether they were added.
    StoreAllOutputs,
    /// Look at the output inventory; the outcome is whether any slot is full.
    CheckOutputsFull,
}

impl CraftingState {
    /// The action that a crafting step takes in this state.
    pub open spec fn spec_next_action(self, has_recipe: bool, is_organism: bool) -> CraftingAction {
        match self {
            CraftingState::NoRecipe => CraftingAction::Nothing,
            CraftingState::NeedsInput | CraftingState::Overproduction => if has_recipe {
                CraftingAction::ConsumeInputs
            } else {
                CraftingAction::Nothing
            },
            CraftingState::InProgress { .. } => if has_recipe {
                CraftingAction::CheckConditions
            } else {
                CraftingAction::Nothing
            },
            CraftingState::RecipeComplete => if !has_recipe {
                CraftingAction::Nothing
            } else if is_organism {
                CraftingAction::StoreOutputs
            } else {
                CraftingAction::StoreAllOutputs
            },
            CraftingState::FullAndBlocked => CraftingAction::CheckOutputsFull,
        }
    }

    /// The state after one crafting step, given the outcome of the step's
    /// action. A recipe takes `craft_time` nanoseconds in full, and a step
    /// lasts `period` nanoseconds.
    pub open spec fn spec_advance(
        self,
        has_recipe: bool,
        is_organism: bool,
        craft_time: u128,
        period: u128,
        outcome: bool,
    ) -> CraftingState {
        match self {
            CraftingState::NoRecipe => if has_recipe {
                CraftingState::NeedsInput
            } else {
                CraftingState::NoRecipe
            },
            CraftingState::NeedsInput | CraftingState::Overproduction => if !has_recipe {
                CraftingState::NoRecipe
            } else if outcome {
                CraftingState::InProgress { progress: 0, required: craft_time }
            } else {
                CraftingState::NeedsInput
            },
            CraftingState::InProgress { progress, required } => if !has_recipe {
                CraftingState::NoRecipe
            } else if !outcome {
                self
            } else if progress + period >= required {
                CraftingState::RecipeComplete
            } else {
                CraftingState::InProgress { progress: (progress + period) as u128, required }
            },
            CraftingState::RecipeComplete => if !has_recipe {
                CraftingState::NoRecipe
            } else if outcome {
                CraftingState::NeedsInput
            } else if is_organism {
                CraftingState::Overproduction
            } else {
                CraftingState::FullAndBlocked
            },
            CraftingState::FullAndBlocked => if outcome {
                CraftingState::FullAndBlocked
            } else {
                CraftingState::NeedsInput
            },
        }
    }

    /// A step can be taken without the progress overflowing a `Duration`.
    pub open spec fn can_advance(self, has_recipe: bool, period: u128, outcome: bool) -> bool {
        match self {
            CraftingState::InProgress { progress, .. } => has_recipe && outcome ==> progress + period
                <= max_duration_nanos(),
            _ => true,
        }
    }

    /// The action that a crafting step takes in this state: which inventory
    /// operation or check the structure's surroundings must perform.
    pub fn next_action(&self, has_recipe: bool, is_organism: bool) -> (a: CraftingAction)
        ensures
            a == self.spec_next_action(has_recipe, is_organism),
    {
        match self {
            CraftingState::NoRecipe => CraftingAction::Nothing,
            CraftingState::NeedsInput | CraftingState::Overproduction => if has_recipe {
                CraftingAction::ConsumeInputs
            } else {
                CraftingAction::Nothing
            },
            CraftingState::InProgress { .. } => if has_recipe {
                CraftingAction::CheckConditions
            } else {
                CraftingAction::Nothing
            },
            CraftingState::RecipeComplete => if !has_recipe {
                CraftingAction::Nothing
            } else if is_organism {
                CraftingAction::StoreOutputs
            } else {
                CraftingAction::StoreAllOutputs
            },
            CraftingState::FullAndBlocked => CraftingAction::CheckOutputsFull,
        }
    }

    /// Progress the state of a recipe by one step of `period` nanoseconds,
    /// given the outcome of [`CraftingState::next_action`].
    pub fn advance(
        &self,
        has_recipe: bool,
        is_organism: bool,
        craft_time: u128,
        period: u128,
        outcome: bool,
    ) -> (s: CraftingState)
        requires
            self.can_advance(has_recipe, period, outcome),
        ensures
            s == self.spec_advance(has_recipe, is_organism, craft_time, period, outcome),
    {
        match *self {
            CraftingState::NoRecipe => if has_recipe {
                CraftingState::NeedsInput
            } else {
                CraftingState::NoRecipe
            },
            CraftingState::NeedsInput | CraftingState::Overproduction => if !has_recipe {
                CraftingState::NoRecipe
            } else if outcome {
                CraftingState::InProgress { progress: 0, required: craft_time }
            } else {
                CraftingState::NeedsInput
            },
            CraftingState::InProgress { progress, required } => if !has_recipe {
                CraftingState::NoRecipe
            } else if !outcome {
                *self
            } else {
                let updated_progress = progress + period;
                if updated_progress >= required {
                    CraftingState::RecipeComplete
                } else {
                    CraftingState::InProgress { progress: updated_progress, required }
                }
            },
            CraftingState::RecipeComplete => if !has_recipe {
                CraftingState::NoRecipe
            } else if outcome {
                CraftingState::NeedsInput
            } else if is_organism {
                CraftingState::Overproduction
            } else {
                CraftingState::FullAndBlocked
            },
            CraftingState::FullAndBlocked => if outcome {
                CraftingState::FullAndBlocked
            } else {
                CraftingState::NeedsInput
            },
        }
    }

    /// Is a recipe being crafted?
    pub fn is_in_progress(&self) -> (b: bool)
        ensures
            b == self is InProgress,
    {
        match self {
            CraftingState::InProgress { .. } => true,
            _ => false,
        }
    }
}

/// A step whose action is [`CraftingAction::Nothing`] does not depend on an
/// outcome: nothing was asked.
pub proof fn law_no_action_no_outcome(
    state: CraftingState,
    has_recipe: bool,
    is_organism: bool,
    craft_time: u128,
    period: u128,
)
    requires
        state.spec_next_action(has_recipe, is_organism) == CraftingAction::Nothing,
    ensures
        state.spec_advance(has_recipe, is_organism, craft_time, period, true) == state.spec_advance(
            has_recipe,
            is_organism,
            craft_time,
            period,
            false,
        ),
{
}

/// Without a recipe every state but a blocked output moves to
/// [`CraftingState::NoRecipe`] in one step (a blocked output first waits for
/// its full slots to be emptied), and with a recipe `NoRecipe` moves to
/// [`CraftingState::NeedsInput`].
pub proof fn law_recipe_presence(
    state: CraftingState,
    is_organism: bool,
    craft_time: u128,
    period: u128,
    outcome: bool,
)
    ensures
        state != CraftingState::FullAndBlocked ==> state.spec_advance(
            false,
            is_organism,
            craft_time,
            period,
            outcome,
        ) == CraftingState::NoRecipe,
        CraftingState::NoRecipe.spec_advance(true, is_organism, craft_time, period, outcome)
            == CraftingState::NeedsInput,
{
}

/// While a recipe is in progress its required time never changes and its
/// progress never decreases; it completes exactly when a step with satisfied
/// conditions brings the progress to the required time; a step with
/// unsatisfied conditions changes nothing.
pub proof fn law_progress(
    progress: u128,
    required: u128,
    is_organism: bool,
    craft_time: u128,
    period: u128,
    satisfied: bool,
)
    ensures
        ({
            let next = (CraftingState::InProgress { progress, required }).spec_advance(
                true,
                is_organism,
                craft_time,
                period,
                satisfied,
            );
            &&& !satisfied ==> next == CraftingState::InProgress { progress, required }
            &&& satisfied ==> (next == CraftingState::RecipeComplete <==> progress + period
                >= required)
            &&& next matches CraftingState::InProgress { progress: p2, required: r2 } ==> r2
                == required && p2 >= progress && p2 < required || !satisfied
        }),
{
}

/// Once a finished recipe's outputs are stored, the structure or organism
/// goes back to waiting for inputs; a step from a completed recipe never
/// leaves it completed, so outputs are never stored twice for one crafting.
pub proof fn law_stored_outputs_restart(
    has_recipe: bool,
    is_organism: bool,
    craft_time: u128,
    period: u128,
    outcome: bool,
)
    ensures
        CraftingState::RecipeComplete.spec_advance(true, is_organism, craft_time, period, true)
            == CraftingState::NeedsInput,
        CraftingState::RecipeComplete.spec_advance(
            has_recipe,
            is_organism,
            craft_time,
            period,
            outcome,
        ) != CraftingState::RecipeComplete,
{
}

/// Outputs that do not fit make a structure block until its output is
/// emptied, while an organism keeps producing.
pub proof fn law_unstored_outputs(craft_time: u128, period: u128)
    ensures
        CraftingState::RecipeComplete.spec_advance(true, false, craft_time, period, false)
            == CraftingState::FullAndBlocked,
        CraftingState::RecipeComplete.spec_advance(true, true, craft_time, period, false)
            == CraftingState::Overproduction,
{
}

/// Waiting for inputs (or overproducing), a structure with a recipe starts a
/// fresh crafting of the full recipe time once it could take the inputs, and
/// waits for inputs otherwise.
pub proof fn law_inputs_start_crafting(
    state: CraftingState,
    is_organism: bool,
    craft_time: u128,
    period: u128,
)
    requires
        state == CraftingState::NeedsInput || state == CraftingState::Overproduction,
    ensures
        state.spec_advance(true, is_organism, craft_time, period, true)
            == (CraftingState::InProgress { progress: 0, required: craft_time }),
        state.spec_advance(true, is_organism, craft_time, period, false)
            == CraftingState::NeedsInput,
{
}

/// A blocked output stays blocked while a slot is full, and goes back to
/// waiting for inputs once none is, with or without a recipe.
pub proof fn law_blocked_output_waits(
    has_recipe: bool,
    is_organism: bool,
    craft_time: u128,
    period: u128,
)
    ensures
        CraftingState::FullAndBlocked.spec_advance(has_recipe, is_organism, craft_time, period, true)
            == CraftingState::FullAndBlocked,
        CraftingState::FullAndBlocked.spec_advance(
            has_recipe,
            is_organism,
            craft_time,
            period,
            false,
        ) == CraftingState::NeedsInput,
{
}

/// What each step asks of the surroundings: with a recipe, a waiting
/// structure takes its inputs, a crafting one checks its conditions, a
/// finished one stores its outputs (all or nothing, unless it is an
/// organism); a blocked one looks at its output in any case; without a recipe
/// nothing else is asked.
pub proof fn law_actions(state: CraftingState, has_recipe: bool, is_organism: bool)
    ensures
        has_recipe && (state == CraftingState::NeedsInput || state
            == CraftingState::Overproduction) ==> state.spec_next_action(has_recipe, is_organism)
            == CraftingAction::ConsumeInputs,
        has_recipe && state is InProgress ==> state.spec_next_action(has_recipe, is_organism)
            == CraftingAction::CheckConditions,
        has_recipe && state == CraftingState::RecipeComplete ==> state.spec_next_action(
            has_recipe,
            is_organism,
        ) == (if is_organism {
            CraftingAction::StoreOutputs
        } else {
            CraftingAction::StoreAllOutputs
        }),
        state == CraftingState::FullAndBlocked ==> state.spec_next_action(has_recipe, is_organism)
            == CraftingAction::CheckOutputsFull,
        !has_recipe && state != CraftingState::FullAndBlocked ==> state.spec_next_action(
            has_recipe,
            is_organism,
        ) == CraftingAction::Nothing,
        state == CraftingState::NoRecipe ==> state.spec_next_action(has_recipe, is_organism)
            == CraftingAction::Nothing,
{
}

/// The number of workers present / allowed at this structure.
#[derive(Debug, Clone, Copy, PartialEq, Eq)]
pub struct WorkersPresent {
    /// The number of workers present
    present: u8,
    /// The maximum number of workers allowed
    allowed: u8,
}

impl WorkersPresent {
    /// Never more workers than allowed.
    #[verifier::type_invariant]
    spec fn inv(self) -> bool {
        self.present <= self.allowed
    }

    /// The number of workers present.
    pub closed spec fn spec_present(self) -> u8 {
        self.present
    }

    /// The maximum number of workers allowed.
    pub closed spec fn spec_allowed(self) -> u8 {
        self.allowed
    }

    /// Create a new [`WorkersPresent`] with the provided maximum number of workers allowed.
    pub fn new(allowed: u8) -> (w: WorkersPresent)
        ensures
            w.spec_present() == 0,
            w.spec_allowed() == allowed,
    {
        WorkersPresent { present: 0, allowed }
    }

    /// Are more workers needed?
    pub fn needs_more(&self) -> (b: bool)
        ensures
            b == (self.spec_present() < self.spec_allowed()),
    {
        self.present < self.allowed
    }

    /// The number of workers present; never more than allowed.
    pub fn current(&self) -> (n: u8)
        ensures
            n == self.spec_present(),
            n <= self.spec_allowed(),
    {
        proof {
            use_type_invariant(self);
        }
        self.present
    }

    /// The maximum number of workers allowed.
    pub fn allowed(&self) -> (n: u8)
        ensures
            n == self.spec_allowed(),
    {
        self.allowed
    }

    /// Adds a worker to this structure if there is room; `Err` if it is full.
    pub fn add_worker(&mut self) -> (r: Result<(), ()>)
        ensures
            final(self).spec_allowed() == old(self).spec_allowed(),
            old(self).spec_present() < old(self).spec_allowed() ==> r is Ok && final(self).spec_present()
                == old(self).spec_present() + 1,
            old(self).spec_present() >= old(self).spec_allowed() ==> r is Err && final(self).spec_present()
                == old(self).spec_present(),
    {
        if self.needs_more() {
            self.present = self.present + 1;
            Ok(())
        } else {
            Err(())
        }
    }

    /// Removes a worker from this structure, if any is present.
    pub fn remove_worker(&mut self)
        ensures
            final(self).spec_allowed() == old(self).spec_allowed(),
            final(self).spec_present() == (if old(self).spec_present() == 0 {
                0
            } else {
                old(self).spec_present() - 1
            }),
    {
        proof {
            use_type_invariant(&*self);
        }
        if self.present > 0 {
            self.present = self.present - 1;
        }
    }
}

/// The entity at `structure_pos` that units might work at: the ghost structure
/// there if there is one, else the structure, else none.
pub open spec fn workplace_at(map_geometry: &MapGeometry, structure_pos: TilePos) -> Option<Entity> {
    match lookup(map_geometry.ghost_structures(), structure_pos) {
        Some(e) => Some(e),
        None => lookup(map_geometry.structures(), structure_pos),
    }
}

impl MapGeometry {
    /// The entity at `structure_pos` that units might work at; ghosts are
    /// preferred over structures to allow for replacing structures by
    /// building.
    pub fn workplace_at(&self, structure_pos: TilePos) -> (r: Option<Entity>)
        requires
            self.wf(),
        ensures
            r == workplace_at(self, structure_pos),
    {
        match self.get_ghost_structure(structure_pos) {
            Some(e) => Some(e),
            None => self.get_structure(structure_pos),
        }
    }
}

/// Does the workplace `entity` need work done by a unit? It does when it is
/// of the structure type that the unit looks for (`same_structure`), its
/// recipe is in progress and it has room for more workers.
pub fn needs_work(
    entity: Entity,
    same_structure: bool,
    state: &CraftingState,
    workers_present: &WorkersPresent,
) -> (r: Option<Entity>)
    ensures
        r == (if same_structure && *state is InProgress && workers_present.spec_present()
            < workers_present.spec_allowed() {
            Some(entity)
        } else {
            None
        }),
{
    if !same_structure {
        return None;
    }
    if state.is_in_progress() && workers_present.needs_more() {
        Some(entity)
    } else {
        None
    }
}

} // verus!
