//! When the simulation runs: pausing, and the cap on ticks per frame.

use vstd::prelude::*;

verus! {

/// Controls whether or not the game is paused.
#[derive(Debug, Clone, Copy, PartialEq, Eq, Hash, Structural)]
pub enum PauseState {
    /// Game logic is running.
    Playing,
    /// Game logic is stopped.
    Paused,
}

impl Default for PauseState {
    fn default() -> (s: PauseState)
        ensures
            s == PauseState::Playing,
    {
        PauseState::Playing
    }
}

impl PauseState {
    /// The pause state after player input: toggled when the pause action was
    /// just pressed, unchanged otherwise.
    pub fn pause_game(self, toggle_pressed: bool) -> (s: PauseState)
        ensures
            !toggle_pressed ==> s == self,
            toggle_pressed ==> s != self,
    {
        if toggle_pressed {
            match self {
                PauseState::Paused => PauseState::Playing,
                PauseState::Playing => PauseState::Paused,
            }
        } else {
            self
        }
    }
}

/// Pressing the pause action twice gives back the state it started from:
/// each press changes the state, and there are only two states.
pub proof fn law_pause_toggles_back(start: PauseState, once: PauseState, twice: PauseState)
    requires
        once != start,
        twice != once,
    ensures
        twice == start,
{
}

/// Tracks how many ticks have passed this frame.
#[derive(Debug)]
pub struct TicksThisFrame {
    /// The number of ticks that have passed this frame.
    current: u8,
    /// The maximum number of ticks that can pass in a frame.
    max: u8,
}

impl TicksThisFrame {
    /// No more ticks pass in a frame than the maximum, except the one tick
    /// that every frame allows.
    #[verifier::type_invariant]
    spec fn inv(self) -> bool {
        self.current <= self.max || self.current == 1
    }

    /// The number of ticks that have passed this frame.
    pub closed spec fn spec_current(&self) -> u8 {
        self.current
    }

    /// The maximum number of ticks that can pass in a frame.
    pub closed spec fn spec_max(&self) -> u8 {
        self.max
    }

    /// No tick has passed yet; at most `max` may pass in a frame.
    pub fn new(max: u8) -> (t: TicksThisFrame)
        ensures
            t.spec_current() == 0,
            t.spec_max() == max,
    {
        TicksThisFrame { current: 0, max }
    }

    /// The number of ticks that have passed this frame; never more than the
    /// maximum, or than one when the maximum is zero.
    pub fn current(&self) -> (n: u8)
        ensures
            n == self.spec_current(),
            n <= self.spec_max() || n == 1,
    {
        proof {
            use_type_invariant(self);
        }
        self.current
    }

    /// May the simulation tick again? Always at the start of a new frame
    /// (`frame_changed`), otherwise while fewer than the maximum number of
    /// ticks have passed.
    pub fn max_ticks_not_reached(&self, frame_changed: bool) -> (b: bool)
        ensures
            b == (frame_changed || self.spec_current() < self.spec_max()),
    {
        frame_changed || self.current < self.max
    }

    /// Counts one tick, starting the count again at a new frame. Runs only
    /// when [`TicksThisFrame::max_ticks_not_reached`] allows it.
    pub fn update_ticks_this_frame(&mut self, frame_changed: bool)
        requires
            frame_changed || old(self).spec_current() < old(self).spec_max(),
        ensures
            final(self).spec_max() == old(self).spec_max(),
            final(self).spec_current() == (if frame_changed {
                1
            } else {
                old(self).spec_current() + 1
            }),
    {
        if frame_changed {
            self.current = 0;
        }
        self.current = self.current + 1;
    }
}

} // verus!
