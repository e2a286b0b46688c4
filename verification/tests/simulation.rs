use emergence_lib::simulation::{PauseState, TicksThisFrame};
use emergence_lib::status::StatusVisualization;

#[test]
fn pausing_toggles() {
    let state = PauseState::default();
    assert_eq!(state, PauseState::Playing);
    assert_eq!(state.pause_game(false), PauseState::Playing);
    let paused = state.pause_game(true);
    assert_eq!(paused, PauseState::Paused);
    assert_eq!(paused.pause_game(true), PauseState::Playing);
}

#[test]
fn ticks_are_capped_per_frame() {
    let mut ticks = TicksThisFrame::new(3);
    assert!(ticks.max_ticks_not_reached(false));
    ticks.update_ticks_this_frame(true);
    assert_eq!(ticks.current(), 1);
    ticks.update_ticks_this_frame(false);
    ticks.update_ticks_this_frame(false);
    assert_eq!(ticks.current(), 3);
    assert!(!ticks.max_ticks_not_reached(false));
    assert!(ticks.max_ticks_not_reached(true));
    ticks.update_ticks_this_frame(true);
    assert_eq!(ticks.current(), 1);
}

#[test]
fn status_visualization_cycles_through_five_options() {
    let mut status = StatusVisualization::default();
    assert_eq!(status, StatusVisualization::Off);
    let expected = [
        StatusVisualization::Structures,
        StatusVisualization::Units,
        StatusVisualization::Terraforming,
        StatusVisualization::All,
        StatusVisualization::Off,
    ];
    for next in expected {
        status.cycle();
        assert_eq!(status, next);
    }
}

#[test]
fn status_visualization_flags() {
    assert!(!StatusVisualization::Off.structures_enabled());
    assert!(!StatusVisualization::Off.units_enabled());
    assert!(!StatusVisualization::Off.terraforming_enabled());
    assert!(StatusVisualization::Structures.structures_enabled());
    assert!(!StatusVisualization::Structures.units_enabled());
    assert!(StatusVisualization::Units.units_enabled());
    assert!(StatusVisualization::Terraforming.terraforming_enabled());
    assert!(!StatusVisualization::Terraforming.structures_enabled());
    assert!(StatusVisualization::All.structures_enabled());
    assert!(StatusVisualization::All.units_enabled());
    assert!(StatusVisualization::All.terraforming_enabled());
}

#[test]
fn a_new_frame_always_allows_one_tick() {
    let mut ticks = TicksThisFrame::new(0);
    assert!(!ticks.max_ticks_not_reached(false));
    assert!(ticks.max_ticks_not_reached(true));
    ticks.update_ticks_this_frame(true);
    assert_eq!(ticks.current(), 1);
    assert!(!ticks.max_ticks_not_reached(false));
}
