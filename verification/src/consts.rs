//! Fixed quantities of the playfield and the modes of the application.

use vstd::prelude::*;

verus! {

/// Ticks in one second.
pub const TICKS_PER_SECOND: i64 = 1_000_000;

/// Steps in one playfield unit.
pub const UNIT: i64 = 1_000_000;

/// Speed of a slow arrow, in units per second (steps per tick).
pub const BASE_SPEED: i64 = 200;

/// X coordinate at which arrows appear, left of the visible field.
pub const SPAWN_POSITION: i64 = -400_000_000;

/// X coordinate at which an arrow should be hit.
pub const TARGET_POSITION: i64 = 200_000_000;

/// Greatest distance from the target at which a key press still counts.
pub const THRESHOLD: i64 = 20_000_000;

/// Distance an arrow travels from the spawn position to the target.
pub const DISTANCE: i64 = TARGET_POSITION - SPAWN_POSITION;

/// Ticks between the start of a session and the start of the song.
pub const START_TIME_OFFSET: i64 = 3_000_000;

/// Top-level mode of the application.
#[derive(Copy, Clone, Debug, PartialEq, Eq, Hash, Structural)]
pub enum AppState {
    Menu,
    Game,
    MakeMap,
}

impl Default for AppState {
    /// The application starts in the menu.
    fn default() -> (state: AppState)
        ensures
            state == AppState::Menu,
    {
        AppState::Menu
    }
}

} // verus!
