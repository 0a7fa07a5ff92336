//! Physics-coupled character locomotion, verified.
//!
//! A player body walks by handing the contact solver a tangential target
//! velocity instead of overwriting its own velocity. This crate holds the
//! decisions of that scheme: reading the walking keys, turning them and a
//! camera heading into a desired walk velocity, telling ground contacts
//! from walls and ceilings, and writing the correctly signed target into
//! the ground contacts of a contact pair.
//!
//! All quantities are fixed-point integers, [`ONE`] to the unit, so that
//! every statement about lengths and directions is exact. Velocities and
//! normals are in world space, with the y axis pointing up.

pub mod camera;
pub mod classifier;
pub mod contact;
pub mod input;
pub mod keyboard;
pub mod player;
pub mod registry;
pub mod resolver;
pub mod scalar;
pub mod vec3;

pub use camera::{Heading, PlayerCamera};
pub use classifier::{classify, GroundClassification, Side, GROUND_THRESHOLD};
pub use contact::{
    inject_walk, modify_contacts, resolve_side, target_for, ContactDecision, ContactError,
    ContactManifold, ContactPair,
};
pub use input::KeySnapshot;
pub use keyboard::read_keys;
pub use player::{Player, PlayerState, MAX_WALK_SPEED};
pub use registry::PlayerRegistry;
pub use resolver::{prepare_walk, resolve_walk, walk_tick};
pub use scalar::{isqrt_ceil, ONE};
pub use vec3::{Vec3, Vector};
