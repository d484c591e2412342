//! The arrow keys: what the keyboard of the host says of them, and the
//! snapshot of it that the engine judges and records by.

use vstd::prelude::*;

use bevy::input::keyboard::KeyCode;
use bevy::input::Input;

use crate::types::Directions;

verus! {

/// The pressed, just pressed and just released buttons of an input device,
/// as bevy keeps them. The proofs see nothing of what is inside.
#[verifier::external_type_specification]
#[verifier::external_body]
#[verifier::reject_recursive_types(T)]
pub struct ExInput<T: Copy + Eq + core::hash::Hash + Send + Sync + 'static>(bevy::input::Input<T>);

/// A key of the keyboard, as bevy names it. The proofs see nothing of what
/// is inside.
#[verifier::external_type_specification]
#[verifier::external_body]
pub struct ExKeyCode(bevy::input::keyboard::KeyCode);

/// The directions whose arrow keys the keyboard holds as just pressed. What
/// this set is for a given keyboard is known only through
/// `Directions::key_just_pressed`.
pub uninterp spec fn just_pressed_arrows(input: Input<KeyCode>) -> Set<Directions>;

impl Directions {
    /// Checks if the key corresponding to this direction was just pressed.
    ///
    /// Calls `Input::just_pressed` of bevy with the arrow key of the
    /// direction. Nothing is proved of the call: the contract takes its
    /// answer to be a matter of the keyboard state and the direction alone,
    /// and gives that answer a name.
    #[verifier::external_body]
    pub fn key_just_pressed(&self, input: &Input<KeyCode>) -> (pressed: bool)
        ensures
            pressed == just_pressed_arrows(*input).contains(*self),
    {
        let key = match self {
            Directions::Up => KeyCode::Up,
            Directions::Down => KeyCode::Down,
            Directions::Left => KeyCode::Left,
            Directions::Right => KeyCode::Right,
        };
        input.just_pressed(key)
    }
}

/// Which arrow keys went down during the current tick.
#[derive(Copy, Clone, Debug, PartialEq, Eq, Structural)]
pub struct KeyInput {
    pub up: bool,
    pub down: bool,
    pub left: bool,
    pub right: bool,
}

/// The snapshot of a keyboard.
pub open spec fn just_pressed_keys(input: Input<KeyCode>) -> KeyInput {
    KeyInput {
        up: just_pressed_arrows(input).contains(Directions::Up),
        down: just_pressed_arrows(input).contains(Directions::Down),
        left: just_pressed_arrows(input).contains(Directions::Left),
        right: just_pressed_arrows(input).contains(Directions::Right),
    }
}

impl KeyInput {
    /// Whether the key of direction `d` is set in this snapshot.
    pub open spec fn has(self, d: Directions) -> bool {
        match d {
            Directions::Up => self.up,
            Directions::Down => self.down,
            Directions::Left => self.left,
            Directions::Right => self.right,
        }
    }

    /// A snapshot with no key pressed.
    pub fn none() -> (keys: KeyInput)
        ensures
            forall|d: Directions| !keys.has(d),
    {
        KeyInput { up: false, down: false, left: false, right: false }
    }

    /// The snapshot of a keyboard: for each direction, whether its key was
    /// just pressed.
    pub fn read(input: &Input<KeyCode>) -> (keys: KeyInput)
        ensures
            keys == just_pressed_keys(*input),
            forall|d: Directions| keys.has(d) == just_pressed_arrows(*input).contains(d),
    {
        KeyInput {
            up: Directions::Up.key_just_pressed(input),
            down: Directions::Down.key_just_pressed(input),
            left: Directions::Left.key_just_pressed(input),
            right: Directions::Right.key_just_pressed(input),
        }
    }

    /// Whether the key of direction `d` is set in this snapshot.
    pub fn pressed(&self, d: Directions) -> (pressed: bool)
        ensures
            pressed == self.has(d),
    {
        match d {
            Directions::Up => self.up,
            Directions::Down => self.down,
            Directions::Left => self.left,
            Directions::Right => self.right,
        }
    }
}

} // verus!
