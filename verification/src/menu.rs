//! The menu and the changes of mode that it and the sessions ask for.

use vstd::prelude::*;

use crate::consts::AppState;

verus! {

/// How the pointer stands to a button.
#[derive(Copy, Clone, Debug, PartialEq, Eq, Structural)]
pub enum Interaction {
    Pressed,
    Hovered,
    Idle,
}

/// A button of the menu.
#[derive(Debug)]
pub enum MenuButton {
    /// Record a new chart.
    MakeMap,
    /// Play the chart of the given name.
    PlaySong(String),
}

impl MenuButton {
    /// The mode that a press of this button asks for.
    pub open spec fn spec_target(&self) -> AppState {
        match self {
            MenuButton::MakeMap => AppState::MakeMap,
            MenuButton::PlaySong(_) => AppState::Game,
        }
    }

    /// The mode that a press of this button asks for.
    pub fn target(&self) -> (state: AppState)
        ensures
            state == self.spec_target(),
    {
        match self {
            MenuButton::MakeMap => AppState::MakeMap,
            MenuButton::PlaySong(_) => AppState::Game,
        }
    }
}

/// `index` is the first button that is pressed.
pub open spec fn is_first_pressed(interactions: Seq<Interaction>, index: int) -> bool {
    &&& 0 <= index < interactions.len()
    &&& interactions[index] == Interaction::Pressed
    &&& forall|k: int| 0 <= k < index ==> interactions[k] != Interaction::Pressed
}

/// Picks the button that takes effect in this tick: the first that is
/// pressed, if any is.
pub fn button_press_system(interactions: &Vec<Interaction>) -> (choice: Option<usize>)
    ensures
        choice matches Some(index) ==> is_first_pressed(interactions@, index as int),
        choice is None ==> forall|k: int|
            0 <= k < interactions.len() ==> interactions[k] != Interaction::Pressed,
{
    let mut i: usize = 0;
    while i < interactions.len()
        invariant
            i <= interactions.len(),
            forall|k: int| 0 <= k < i ==> interactions[k] != Interaction::Pressed,
        decreases interactions.len() - i,
    {
        if interactions[i] == Interaction::Pressed {
            return Some(i);
        }
        i += 1;
    }
    None
}

/// What the host has to do when the mode changes: first on leaving the old
/// mode, then on entering the new one.
#[derive(Copy, Clone, Debug, PartialEq, Eq, Structural)]
pub struct ModeChange {
    /// Take every live arrow and the targets off the playfield.
    pub despawn_arrows: bool,
    /// Save the recording, if it was armed, and drop it.
    pub save_recording: bool,
    /// Reset the clock.
    pub reset_clock: bool,
    /// Put the scheduler back to the first arrow of the chart.
    pub reset_scheduler: bool,
    /// Reset the score.
    pub reset_score: bool,
    /// Arm the recording.
    pub arm_recording: bool,
}

/// The change from mode `from` to mode `to`, where there is one: the menu
/// leads to play and to recording, and each of these back to the menu.
pub open spec fn mode_change(from: AppState, to: AppState) -> Option<ModeChange> {
    let session = to != AppState::Menu;
    if (from == AppState::Menu) == session {
        Some(
            ModeChange {
                despawn_arrows: from == AppState::Game,
                save_recording: from == AppState::MakeMap,
                reset_clock: session,
                reset_scheduler: session,
                reset_score: to == AppState::Game,
                arm_recording: to == AppState::MakeMap,
            },
        )
    } else {
        None
    }
}

/// The change from mode `from` to mode `to`, or none where the modes do not
/// lead to each other.
pub fn transition(from: AppState, to: AppState) -> (change: Option<ModeChange>)
    ensures
        change == mode_change(from, to),
{
    match (from, to) {
        (AppState::Menu, AppState::Game) => Some(
            ModeChange {
                despawn_arrows: false,
                save_recording: false,
                reset_clock: true,
                reset_scheduler: true,
                reset_score: true,
                arm_recording: false,
            },
        ),
        (AppState::Menu, AppState::MakeMap) => Some(
            ModeChange {
                despawn_arrows: false,
                save_recording: false,
                reset_clock: true,
                reset_scheduler: true,
                reset_score: false,
                arm_recording: true,
            },
        ),
        (AppState::Game, AppState::Menu) => Some(
            ModeChange {
                despawn_arrows: true,
                save_recording: false,
                reset_clock: false,
                reset_scheduler: false,
                reset_score: false,
                arm_recording: false,
            },
        ),
        (AppState::MakeMap, AppState::Menu) => Some(
            ModeChange {
                despawn_arrows: false,
                save_recording: true,
                reset_clock: false,
                reset_scheduler: false,
                reset_score: false,
                arm_recording: false,
            },
        ),
        _ => None,
    }
}

} // verus!
