use emergence_lib::crafting::{needs_work, CraftingAction, CraftingState, WorkersPresent};
use emergence_lib::footprint::Footprint;
use emergence_lib::geometry::MapGeometry;
use emergence_lib::tile::{Entity, Facing, TilePos};

const SECOND: u128 = 1_000_000_000;

#[test]
fn default_crafting_state_needs_input() {
    assert_eq!(CraftingState::default(), CraftingState::NeedsInput);
}

#[test]
fn actions_follow_the_state() {
    assert_eq!(CraftingState::NoRecipe.next_action(true, false), CraftingAction::Nothing);
    assert_eq!(CraftingState::NeedsInput.next_action(true, false), CraftingAction::ConsumeInputs);
    assert_eq!(CraftingState::Overproduction.next_action(true, true), CraftingAction::ConsumeInputs);
    assert_eq!(CraftingState::NeedsInput.next_action(false, false), CraftingAction::Nothing);
    let in_progress = CraftingState::InProgress { progress: 0, required: SECOND };
    assert_eq!(in_progress.next_action(true, false), CraftingAction::CheckConditions);
    assert_eq!(CraftingState::RecipeComplete.next_action(true, true), CraftingAction::StoreOutputs);
    assert_eq!(CraftingState::RecipeComplete.next_action(true, false), CraftingAction::StoreAllOutputs);
    assert_eq!(CraftingState::FullAndBlocked.next_action(false, false), CraftingAction::CheckOutputsFull);
}

#[test]
fn a_full_crafting_cycle() {
    let craft_time = 3 * SECOND;
    let period = SECOND;
    let mut state = CraftingState::NoRecipe;
    state = state.advance(true, false, craft_time, period, false);
    assert_eq!(state, CraftingState::NeedsInput);
    // Inputs missing.
    state = state.advance(true, false, craft_time, period, false);
    assert_eq!(state, CraftingState::NeedsInput);
    // Inputs taken.
    state = state.advance(true, false, craft_time, period, true);
    assert_eq!(state, CraftingState::InProgress { progress: 0, required: craft_time });
    state = state.advance(true, false, craft_time, period, true);
    assert_eq!(state, CraftingState::InProgress { progress: SECOND, required: craft_time });
    // Conditions not met: nothing moves.
    state = state.advance(true, false, craft_time, period, false);
    assert_eq!(state, CraftingState::InProgress { progress: SECOND, required: craft_time });
    state = state.advance(true, false, craft_time, period, true);
    assert_eq!(state, CraftingState::InProgress { progress: 2 * SECOND, required: craft_time });
    state = state.advance(true, false, craft_time, period, true);
    assert_eq!(state, CraftingState::RecipeComplete);
    // The output does not fit: a structure blocks.
    let blocked = state.advance(true, false, craft_time, period, false);
    assert_eq!(blocked, CraftingState::FullAndBlocked);
    assert_eq!(blocked.advance(true, false, craft_time, period, true), CraftingState::FullAndBlocked);
    assert_eq!(blocked.advance(true, false, craft_time, period, false), CraftingState::NeedsInput);
    // An organism overproduces instead.
    assert_eq!(state.advance(true, true, craft_time, period, false), CraftingState::Overproduction);
    assert_eq!(state.advance(true, true, craft_time, period, true), CraftingState::NeedsInput);
}

#[test]
fn losing_the_recipe_stops_crafting() {
    let in_progress = CraftingState::InProgress { progress: 5, required: 10 };
    assert_eq!(in_progress.advance(false, false, 10, 1, true), CraftingState::NoRecipe);
    assert_eq!(CraftingState::RecipeComplete.advance(false, false, 10, 1, true), CraftingState::NoRecipe);
    assert_eq!(CraftingState::Overproduction.advance(false, true, 10, 1, true), CraftingState::NoRecipe);
    assert!(in_progress.is_in_progress());
    assert!(!CraftingState::NeedsInput.is_in_progress());
}

#[test]
fn an_overshooting_step_completes_the_recipe() {
    let state = CraftingState::InProgress { progress: 9, required: 10 };
    assert_eq!(state.advance(true, false, 10, 5, true), CraftingState::RecipeComplete);
    let zero_time = CraftingState::NeedsInput.advance(true, false, 0, 5, true);
    assert_eq!(zero_time, CraftingState::InProgress { progress: 0, required: 0 });
    assert_eq!(zero_time.advance(true, false, 0, 0, true), CraftingState::RecipeComplete);
}

#[test]
fn workers_are_capped() {
    let mut workers = WorkersPresent::new(2);
    assert_eq!(workers.current(), 0);
    assert_eq!(workers.allowed(), 2);
    assert!(workers.needs_more());
    assert_eq!(workers.add_worker(), Ok(()));
    assert_eq!(workers.add_worker(), Ok(()));
    assert!(!workers.needs_more());
    assert_eq!(workers.add_worker(), Err(()));
    assert_eq!(workers.current(), 2);
    workers.remove_worker();
    assert_eq!(workers.current(), 1);
    workers.remove_worker();
    workers.remove_worker();
    assert_eq!(workers.current(), 0);
}

#[test]
fn a_structure_without_room_refuses_workers() {
    let mut workers = WorkersPresent::new(0);
    assert!(!workers.needs_more());
    assert_eq!(workers.add_worker(), Err(()));
    assert_eq!(workers.current(), 0);
}

#[test]
fn work_is_needed_only_while_crafting_with_room() {
    let entity = Entity::from_bits(7);
    let in_progress = CraftingState::InProgress { progress: 0, required: 1 };
    let workers = WorkersPresent::new(1);
    assert_eq!(needs_work(entity, true, &in_progress, &workers), Some(entity));
    assert_eq!(needs_work(entity, false, &in_progress, &workers), None);
    assert_eq!(needs_work(entity, true, &CraftingState::NeedsInput, &workers), None);
    let mut full = WorkersPresent::new(1);
    full.add_worker().unwrap();
    assert_eq!(needs_work(entity, true, &in_progress, &full), None);
}

#[test]
fn ghosts_are_preferred_workplaces() {
    let mut map_geometry = MapGeometry::new(5);
    let footprint = Footprint::single();
    let facing = Facing::default();
    let position = TilePos::new(1, 1);
    assert_eq!(map_geometry.workplace_at(position), None);
    map_geometry.add_structure(facing, position, &footprint, true, Entity::from_bits(1));
    assert_eq!(map_geometry.workplace_at(position), Some(Entity::from_bits(1)));
    map_geometry.add_ghost_structure(facing, position, &footprint, Entity::from_bits(2));
    assert_eq!(map_geometry.workplace_at(position), Some(Entity::from_bits(2)));
}

#[test]
fn steps_without_an_action_ignore_the_outcome() {
    let states = [
        CraftingState::NoRecipe,
        CraftingState::NeedsInput,
        CraftingState::Overproduction,
        CraftingState::InProgress { progress: 1, required: 4 },
        CraftingState::RecipeComplete,
    ];
    for state in states {
        for has_recipe in [false, true] {
            if state.next_action(has_recipe, false) == CraftingAction::Nothing {
                assert_eq!(
                    state.advance(has_recipe, false, 4, 1, true),
                    state.advance(has_recipe, false, 4, 1, false)
                );
            }
        }
    }
}
