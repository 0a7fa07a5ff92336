//! From held keys and the camera's yaw to the state a player walks by.

use vstd::prelude::*;
use bevy::input::keyboard::KeyCode;
use bevy::input::ButtonInput;
use crate::camera::{Heading, PlayerCamera};
use crate::input::KeySnapshot;
use crate::keyboard::{just_pressed_keys, pressed_keys, read_keys, snapshot_of};
use crate::player::{Player, PlayerState, MAX_WALK_SPEED};
use crate::registry::PlayerRegistry;
use crate::scalar::ONE;
use crate::vec3::{Vec3, Vector};

verus! {

/// The sum of what each held key contributes: the camera's forward axis for
/// "down", its opposite for "up", the right axis for "right", its opposite
/// for "left".
pub open spec fn accumulated(keys: KeySnapshot, heading: Heading) -> Vector {
    heading.forward().scaled(keys.forward_axis() as int).plus(
        heading.right().scaled(keys.right_axis() as int),
    )
}

/// The direction to walk in: the accumulated vector, normalised.
pub open spec fn walk_direction(keys: KeySnapshot, heading: Heading) -> Vector {
    accumulated(keys, heading).normalized()
}

/// The velocity to walk with: the direction at the greatest walking speed.
pub open spec fn desired_velocity(keys: KeySnapshot, heading: Heading) -> Vector {
    walk_direction(keys, heading).scaled(MAX_WALK_SPEED as int)
}

/// The state that a control tick writes when it sees `keys` and a camera
/// with `heading`.
pub open spec fn resolved(keys: KeySnapshot, heading: Heading) -> PlayerState {
    PlayerState { walk_velocity: desired_velocity(keys, heading), jump: keys.jump_pressed }
}

/// A player's state after a control tick: freshly resolved where a camera
/// steers, untouched where none does.
pub open spec fn after_tick(
    state: PlayerState,
    keys: KeySnapshot,
    camera: Option<Heading>,
) -> PlayerState {
    match camera {
        Some(heading) => resolved(keys, heading),
        None => state,
    }
}

/// The heading of the controlling camera, if there is such a camera.
pub open spec fn heading_of(camera: Option<PlayerCamera>) -> Option<Heading> {
    match camera {
        Some(c) => Some(c@),
        None => None,
    }
}

/// What one control tick sees: the keys, and the controlling camera's
/// heading if there is such a camera.
pub struct Tick {
    pub keys: KeySnapshot,
    pub camera: Option<Heading>,
}

/// A player's state after the control ticks of `ticks`, in order.
pub open spec fn after_ticks(state: PlayerState, ticks: Seq<Tick>) -> PlayerState
    decreases ticks.len(),
{
    if ticks.len() == 0 {
        state
    } else {
        after_tick(after_ticks(state, ticks.drop_last()), ticks.last().keys, ticks.last().camera)
    }
}

/// An axis of -1, 0 or 1 times a bounded component stays within the bound.
proof fn lemma_axis_product(axis: int, component: int, bound: int)
    by (nonlinear_arith)
    requires
        -1 <= axis <= 1,
        -bound <= component <= bound,
    ensures
        -bound <= axis * component <= bound,
        axis == 0 ==> axis * component == 0,
{
}

/// Keys that push, seen through a heading that points somewhere, add up
/// to a vector that is not zero.
proof fn lemma_accumulated_norm(f: int, r: int, c: int, s: int)
    by (nonlinear_arith)
    requires
        -1 <= f <= 1,
        -1 <= r <= 1,
        f != 0 || r != 0,
        c != 0 || s != 0,
    ensures
        (f * (-s) + r * (-c)) * (f * (-s) + r * (-c)) + (f * (-c) + r * s) * (f * (-c) + r * s) > 0,
{
    let a = f * (-s) + r * (-c);
    let b = f * (-c) + r * s;
    assert(a * a + b * b == (f * f + r * r) * (c * c + s * s));
    assert(f * f + r * r >= 1);
    assert(c * c + s * s >= 1);
}

/// The accumulated vector is horizontal and fits the fixed-point carrier.
/// It is zero exactly when the keys are idle.
pub proof fn lemma_accumulated(keys: KeySnapshot, heading: Heading)
    requires
        heading.is_valid(),
    ensures
        accumulated(keys, heading).y == 0,
        -2 * ONE <= accumulated(keys, heading).x <= 2 * ONE,
        -2 * ONE <= accumulated(keys, heading).z <= 2 * ONE,
        keys.is_idle() <==> accumulated(keys, heading) == Vector::zero(),
{
    let f = keys.forward_axis() as int;
    let r = keys.right_axis() as int;
    lemma_axis_product(f, -heading.sin, ONE as int);
    lemma_axis_product(r, -heading.cos, ONE as int);
    lemma_axis_product(f, -heading.cos, ONE as int);
    lemma_axis_product(r, heading.sin, ONE as int);
    if !keys.is_idle() {
        lemma_accumulated_norm(f, r, heading.cos, heading.sin);
        accumulated(keys, heading).lemma_norm_squared();
    }
}

/// Whatever keys are held, the walking direction is the zero vector or one
/// unit long: zero exactly when no key pushes or opposite keys cancel. It
/// never leaves the ground plane, and none of its components exceeds one
/// unit.
pub proof fn lemma_direction_zero_or_unit(keys: KeySnapshot, heading: Heading)
    requires
        heading.is_valid(),
    ensures
        keys.is_idle() <==> walk_direction(keys, heading) == Vector::zero(),
        !keys.is_idle() ==> walk_direction(keys, heading).is_unit(),
        walk_direction(keys, heading).y == 0,
        -ONE <= walk_direction(keys, heading).x <= ONE,
        -ONE <= walk_direction(keys, heading).z <= ONE,
{
    lemma_accumulated(keys, heading);
    accumulated(keys, heading).lemma_normalized();
    walk_direction(keys, heading).lemma_norm_squared();
}

/// Whatever keys are held and wherever the camera looks, the desired
/// velocity is horizontal and no faster than the greatest walking speed.
pub proof fn lemma_speed_bounded(keys: KeySnapshot, heading: Heading)
    ensures
        desired_velocity(keys, heading).norm_squared() <= (MAX_WALK_SPEED * ONE) * (MAX_WALK_SPEED
            * ONE),
        desired_velocity(keys, heading).y == 0,
        resolved(keys, heading).is_valid(),
{
    let a = accumulated(keys, heading);
    let d = walk_direction(keys, heading);
    let v = desired_velocity(keys, heading);
    let m = MAX_WALK_SPEED as int;
    assert(a.y == 0) by (nonlinear_arith)
        requires
            a.y == keys.forward_axis() * 0 + keys.right_axis() * 0,
    ;
    a.lemma_normalized();
    assert(v.y == 0) by (nonlinear_arith)
        requires
            v.y == m * d.y,
            d.y == 0,
    ;
    d.lemma_scaled_norm(m);
    assert(m * m * d.norm_squared() <= (m * ONE) * (m * ONE)) by (nonlinear_arith)
        requires
            d.norm_squared() <= ONE * ONE,
    ;
}

/// While no key pushes, the desired velocity is exactly zero: opposite keys
/// leave no residue. While a key pushes, it is not.
pub proof fn lemma_rest_when_idle(keys: KeySnapshot, heading: Heading)
    requires
        heading.is_valid(),
    ensures
        keys.is_idle() <==> desired_velocity(keys, heading) == Vector::zero(),
{
    lemma_direction_zero_or_unit(keys, heading);
    let d = walk_direction(keys, heading);
    let m = MAX_WALK_SPEED as int;
    assert(m * d.x == 0 && m * d.y == 0 && m * d.z == 0 <==> d.x == 0 && d.y == 0 && d.z == 0)
        by (nonlinear_arith)
        requires
            m > 0,
    ;
}

/// After a control tick that a camera steered, the jump intent is that
/// tick's press edge and nothing else: earlier ticks leave no trace, so an
/// edge lasts one tick and a key that stays held asks for no further jump.
pub proof fn lemma_jump_follows_press_edge(state: PlayerState, ticks: Seq<Tick>, t: int)
    requires
        0 <= t < ticks.len(),
        ticks[t].camera is Some,
    ensures
        after_ticks(state, ticks.take(t + 1)).jump == ticks[t].keys.jump_pressed,
{
    let upto = ticks.take(t + 1);
    assert(upto.last() == ticks[t]);
}

/// A control tick without a controlling camera changes nothing.
pub proof fn lemma_tick_without_camera(state: PlayerState, keys: KeySnapshot)
    ensures
        after_tick(state, keys, None) == state,
{
}

/// The state that this tick's keys and camera ask for.
pub fn resolve_walk(keys: &KeySnapshot, camera: &PlayerCamera) -> (player: Player)
    ensures
        player@ == resolved(*keys, camera@),
{
    let forward: Vec3 = camera.forward();
    let right: Vec3 = camera.right();
    proof {
        lemma_accumulated(*keys, camera@);
        lemma_direction_zero_or_unit(*keys, camera@);
        lemma_speed_bounded(*keys, camera@);
    }
    let along: Vec3 = forward.scaled(keys.forward_axis());
    let across: Vec3 = right.scaled(keys.right_axis());
    let direction: Vec3 = along.plus(&across).normalize_or_zero();
    let velocity: Vec3 = direction.scaled(MAX_WALK_SPEED);
    Player::from_valid(velocity, keys.jump_pressed)
}

/// One control tick on keys already read: every registered player gets the
/// state that the keys and the camera ask for. Without a controlling camera
/// the tick is skipped and every state stays as it was.
pub fn walk_tick(keys: &KeySnapshot, camera: Option<PlayerCamera>, players: &mut PlayerRegistry)
    ensures
        final(players)@.dom() == old(players)@.dom(),
        forall|collider: u64| #[trigger]
            final(players)@.contains_key(collider) ==> final(players)@[collider] == after_tick(
                old(players)@[collider],
                *keys,
                heading_of(camera),
            ),
{
    match camera {
        Some(c) => {
            let state: Player = resolve_walk(keys, &c);
            players.set_all(state);
        },
        None => {},
    }
}

/// One control tick: reads the walking and jumping keys from the keyboard
/// and gives every registered player the state that they and the camera
/// ask for. Without a controlling camera the tick is skipped and every
/// state stays as it was.
pub fn prepare_walk(
    keyboard_input: &ButtonInput<KeyCode>,
    camera: Option<PlayerCamera>,
    players: &mut PlayerRegistry,
)
    ensures
        final(players)@.dom() == old(players)@.dom(),
        forall|collider: u64| #[trigger]
            final(players)@.contains_key(collider) ==> final(players)@[collider] == after_tick(
                old(players)@[collider],
                snapshot_of(pressed_keys(*keyboard_input), just_pressed_keys(*keyboard_input)),
                heading_of(camera),
            ),
{
    let keys: KeySnapshot = read_keys(keyboard_input);
    walk_tick(&keys, camera, players);
}

} // verus!
