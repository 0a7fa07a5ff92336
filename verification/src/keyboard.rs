//! Reading the walking keys from the engine's keyboard state.

use vstd::prelude::*;
use bevy::input::keyboard::{KeyCode, NativeKeyCode};
use bevy::input::ButtonInput;
use core::hash::Hash;
use crate::input::KeySnapshot;

verus! {

/// The platform's own code of a key that the engine has no name for.
#[verifier::external_type_specification]
pub struct ExNativeKeyCode(NativeKeyCode);

/// The engine's names for the keys of a keyboard.
#[verifier::external_type_specification]
pub struct ExKeyCode(KeyCode);

/// The engine's record of which buttons are down and which went down or up
/// during the current frame.
#[verifier::external_type_specification]
#[verifier::external_body]
#[verifier::reject_recursive_types(T)]
pub struct ExButtonInput<T: Copy + Eq + Hash + Send + Sync + 'static>(ButtonInput<T>);

/// The keys that `input` holds as pressed.
pub uninterp spec fn pressed_keys(input: ButtonInput<KeyCode>) -> Set<KeyCode>;

/// The keys that `input` holds as pressed during the current frame.
pub uninterp spec fn just_pressed_keys(input: ButtonInput<KeyCode>) -> Set<KeyCode>;

/// `ButtonInput::any_pressed` on two keys: whether `input` holds one of
/// them as pressed. Believed, not proved.
#[verifier::external_body]
fn either_pressed(input: &ButtonInput<KeyCode>, first: KeyCode, second: KeyCode) -> (held: bool)
    ensures
        held == (pressed_keys(*input).contains(first) || pressed_keys(*input).contains(second)),
{
    input.any_pressed([first, second])
}

/// `ButtonInput::just_pressed`: whether `input` holds `key` as pressed
/// during the current frame. Believed, not proved.
#[verifier::external_body]
fn just_pressed(input: &ButtonInput<KeyCode>, key: KeyCode) -> (pressed: bool)
    ensures
        pressed == just_pressed_keys(*input).contains(key),
{
    input.just_pressed(key)
}

/// What `held` and `edges` make of the keyboard: W and the up arrow walk
/// against the camera's forward axis, S and the down arrow along it, A and
/// the left arrow against its right axis, D and the right arrow along it,
/// and the space bar jumps on the frame it goes down.
pub open spec fn snapshot_of(held: Set<KeyCode>, edges: Set<KeyCode>) -> KeySnapshot {
    KeySnapshot {
        up: held.contains(KeyCode::KeyW) || held.contains(KeyCode::ArrowUp),
        down: held.contains(KeyCode::KeyS) || held.contains(KeyCode::ArrowDown),
        left: held.contains(KeyCode::KeyA) || held.contains(KeyCode::ArrowLeft),
        right: held.contains(KeyCode::KeyD) || held.contains(KeyCode::ArrowRight),
        jump_pressed: edges.contains(KeyCode::Space),
    }
}

/// The walking and jumping keys as the engine's keyboard state has them in
/// the current frame.
pub fn read_keys(input: &ButtonInput<KeyCode>) -> (keys: KeySnapshot)
    ensures
        keys == snapshot_of(pressed_keys(*input), just_pressed_keys(*input)),
{
    KeySnapshot {
        up: either_pressed(input, KeyCode::KeyW, KeyCode::ArrowUp),
        down: either_pressed(input, KeyCode::KeyS, KeyCode::ArrowDown),
        left: either_pressed(input, KeyCode::KeyA, KeyCode::ArrowLeft),
        right: either_pressed(input, KeyCode::KeyD, KeyCode::ArrowRight),
        jump_pressed: just_pressed(input, KeyCode::Space),
    }
}

} // verus!
