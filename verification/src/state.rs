//! Game state management.
//!
//! An integer-indexed state machine: a current, previous and backup
//! state plus four per-state counters that reset on every transition,
//! and a frame counter that wraps around.

use vstd::prelude::*;

verus! {

/// Main game states.
#[derive(Debug, Clone, Copy, Default, Eq, PartialEq, Hash, Structural)]
pub enum GameState {
    /// Loading screen; the initial state.
    #[default]
    Loading,
    /// Main menu.
    MainMenu,
    /// Field/world exploration.
    Field,
    /// Battle system.
    Battle,
    /// In-game menu system.
    Menu,
    /// Cutscene playback.
    Cutscene,
    /// Exit state.
    Exit,
}

/// State machine manager.
#[derive(Debug)]
pub struct StateManager {
    /// Current active state.
    pub current_state: GameState,
    /// Previous state, for transition detection.
    pub previous_state: GameState,
    /// Backup state.
    pub backup_state: GameState,
    /// First per-state counter.
    pub counter_1: u32,
    /// Second per-state counter.
    pub counter_2: u32,
    /// Third per-state counter.
    pub counter_3: u32,
    /// Fourth per-state counter.
    pub counter_4: u32,
    /// Frame counter; wraps around.
    pub frame_counter: u32,
}

/// The freshly initialised manager: every state is `Loading` and
/// every counter zero.
pub open spec fn spec_initial_manager() -> StateManager {
    StateManager {
        current_state: GameState::Loading,
        previous_state: GameState::Loading,
        backup_state: GameState::Loading,
        counter_1: 0,
        counter_2: 0,
        counter_3: 0,
        counter_4: 0,
        frame_counter: 0,
    }
}

impl Default for StateManager {
    /// The initial manager.
    fn default() -> (r: Self)
        ensures
            r == spec_initial_manager(),
    {
        Self {
            current_state: GameState::Loading,
            previous_state: GameState::Loading,
            backup_state: GameState::Loading,
            counter_1: 0,
            counter_2: 0,
            counter_3: 0,
            counter_4: 0,
            frame_counter: 0,
        }
    }
}

impl StateManager {
    /// Create a new state manager in the initial state.
    pub fn new() -> (r: Self)
        ensures
            r == spec_initial_manager(),
    {
        Self::default()
    }

    /// Whether the state changed since the last transition was
    /// handled.
    pub fn state_changed(&self) -> (r: bool)
        ensures
            r == (self.current_state != self.previous_state),
    {
        self.current_state != self.previous_state
    }

    /// Reset the four per-state counters.
    pub fn reset_counters(&mut self)
        ensures
            *final(self) == (StateManager {
                counter_1: 0,
                counter_2: 0,
                counter_3: 0,
                counter_4: 0,
                ..*old(self)
            }),
    {
        self.counter_1 = 0;
        self.counter_2 = 0;
        self.counter_3 = 0;
        self.counter_4 = 0;
    }

    /// Transition to `new_state`: when it differs from the current
    /// state, the current state becomes the previous one, the new
    /// state is installed and backed up, and the counters reset; a
    /// transition to the current state changes nothing.
    pub fn transition_to(&mut self, new_state: GameState)
        ensures
            old(self).current_state != new_state ==> *final(self) == (StateManager {
                previous_state: old(self).current_state,
                current_state: new_state,
                backup_state: new_state,
                counter_1: 0,
                counter_2: 0,
                counter_3: 0,
                counter_4: 0,
                ..*old(self)
            }),
            old(self).current_state == new_state ==> *final(self) == *old(self),
    {
        if self.current_state != new_state {
            self.previous_state = self.current_state;
            self.current_state = new_state;
            self.backup_state = new_state;
            self.reset_counters();
        }
    }

    /// Advance the frame counter by one, wrapping at the 32-bit
    /// maximum.
    pub fn tick_frame(&mut self)
        ensures
            *final(self) == (StateManager {
                frame_counter: if old(self).frame_counter == u32::MAX {
                    0u32
                } else {
                    (old(self).frame_counter + 1) as u32
                },
                ..*old(self)
            }),
    {
        if self.frame_counter == u32::MAX {
            self.frame_counter = 0;
        } else {
            self.frame_counter = self.frame_counter + 1;
        }
    }
}

} // verus!
