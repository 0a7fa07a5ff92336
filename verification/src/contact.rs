//! The contact hook: writing a player's walk velocity into the ground
//! contacts of a contact pair before the solver runs.
//!
//! A manifold's normal points from the second collider of its pair toward
//! the first, and its tangent velocity is the velocity that the first
//! collider is to have relative to the second along the surface.

use vstd::prelude::*;
use crate::classifier::{
    classify, is_ground, lemma_classification_side_symmetry, GroundClassification, Side,
};
use crate::player::{Player, PlayerState, MAX_WALK_SPEED};
use crate::registry::PlayerRegistry;
use crate::scalar::ONE;
use crate::vec3::{Vec3, Vector};

verus! {

/// One contact surface between two colliders, as the contracts see it.
pub struct Manifold {
    pub normal: Vector,
    pub tangent_velocity: Vector,
}

/// One contact surface between two colliders: the unit normal that its
/// contact points share and the tangential target velocity that the solver
/// will aim for.
#[derive(Clone, Copy, Debug, PartialEq, Eq)]
pub struct ContactManifold {
    pub normal: Vec3,
    pub tangent_velocity: Vec3,
}

impl View for ContactManifold {
    type V = Manifold;

    open spec fn view(&self) -> Manifold {
        Manifold { normal: self.normal@, tangent_velocity: self.tangent_velocity@ }
    }
}

/// A contact pair as the contracts see it.
pub struct Contact {
    pub collider1: u64,
    pub collider2: u64,
    pub manifolds: Seq<Manifold>,
}

/// Two colliders that touch, and the manifolds between them.
#[derive(Debug, PartialEq, Eq)]
pub struct ContactPair {
    pub collider1: u64,
    pub collider2: u64,
    pub manifolds: Vec<ContactManifold>,
}

impl View for ContactPair {
    type V = Contact;

    open spec fn view(&self) -> Contact {
        Contact {
            collider1: self.collider1,
            collider2: self.collider2,
            manifolds: self.manifolds@.map_values(|m: ContactManifold| m@),
        }
    }
}

/// What the hook tells the physics step about a contact pair.
#[derive(Clone, Copy, Debug, PartialEq, Eq, Structural)]
pub struct ContactDecision {
    /// The pair stays enabled for solving. Walking never disables a
    /// contact.
    pub keep_enabled: bool,
    /// The player stands on ground in this pair and asked for a jump this
    /// tick: a grounded jump may be started.
    pub grounded_jump: bool,
}

/// Why the hook refuses a contact pair.
#[derive(Clone, Copy, Debug, PartialEq, Eq, Structural)]
pub enum ContactError {
    /// Both colliders of the pair belong to players. Only one player takes
    /// part in the simulation, so no sign could be chosen.
    TwoPlayers { collider1: u64, collider2: u64 },
}

/// Where the players stand in a contact pair.
pub enum Involvement {
    /// Neither collider belongs to a player.
    NoPlayer,
    /// The collider on `side` belongs to the player with `state`; the other
    /// collider belongs to none.
    OnePlayer { side: Side, state: PlayerState },
    /// Both colliders belong to players.
    TwoPlayers,
}

/// Looks both colliders up, each on its own.
pub open spec fn involvement(
    collider1: u64,
    collider2: u64,
    players: Map<u64, PlayerState>,
) -> Involvement {
    if players.contains_key(collider1) && players.contains_key(collider2) {
        Involvement::TwoPlayers
    } else if players.contains_key(collider1) {
        Involvement::OnePlayer { side: Side::First, state: players[collider1] }
    } else if players.contains_key(collider2) {
        Involvement::OnePlayer { side: Side::Second, state: players[collider2] }
    } else {
        Involvement::NoPlayer
    }
}

/// The tangential target that makes a player on `side` of a pair walk as
/// `state` asks: the walk velocity itself for the first collider, its
/// opposite for the second.
pub open spec fn target_velocity(state: PlayerState, side: Side) -> Vector {
    state.walk_velocity.scaled(side.sign())
}

/// A manifold after the hook: a ground contact carries the player's target
/// velocity, any other contact is left as it was.
pub open spec fn injected_manifold(manifold: Manifold, state: PlayerState, side: Side) -> Manifold {
    if is_ground(manifold.normal, side) {
        Manifold { normal: manifold.normal, tangent_velocity: target_velocity(state, side) }
    } else {
        manifold
    }
}

/// A contact pair after the hook has gone through its manifolds.
pub open spec fn injected(contact: Contact, state: PlayerState, side: Side) -> Contact {
    Contact {
        collider1: contact.collider1,
        collider2: contact.collider2,
        manifolds: contact.manifolds.map_values(|m: Manifold| injected_manifold(m, state, side)),
    }
}

/// Some manifold among the first `count` is ground for the player on
/// `side`.
pub open spec fn ground_among(manifolds: Seq<Manifold>, side: Side, count: int) -> bool {
    exists|i: int| 0 <= i < count && is_ground((#[trigger] manifolds[i]).normal, side)
}

/// Some manifold of the pair is ground for the player on `side`.
pub open spec fn touches_ground(contact: Contact, side: Side) -> bool {
    ground_among(contact.manifolds, side, contact.manifolds.len() as int)
}

/// Swapping which collider is the player turns the normal of a manifold
/// round. The manifold is injected in the one arrangement exactly when it
/// is in the other, and the two injected velocities are opposite and
/// equally long: as long as the player's walk velocity.
pub proof fn lemma_injection_side_symmetry(manifold: Manifold, state: PlayerState, side: Side)
    ensures
        is_ground(manifold.normal, side) == is_ground(manifold.normal.neg(), side.other()),
        target_velocity(state, side.other()) == target_velocity(state, side).neg(),
        target_velocity(state, side.other()).norm_squared() == target_velocity(
            state,
            side,
        ).norm_squared(),
        target_velocity(state, side).norm_squared() == state.walk_velocity.norm_squared(),
{
    lemma_classification_side_symmetry(manifold.normal, side);
    state.walk_velocity.lemma_scaled_norm(1);
    state.walk_velocity.lemma_scaled_norm(-1);
}

/// A player at rest asks for no tangential motion on either side.
pub proof fn lemma_rest_injects_zero(state: PlayerState, side: Side)
    requires
        state.walk_velocity == Vector::zero(),
    ensures
        target_velocity(state, side) == Vector::zero(),
{
}

/// Decides from the two lookups of a pair's colliders whose walk velocity
/// is to be injected and with which sign. Two players in one pair are an
/// error; no player is no work.
pub fn resolve_side(
    collider1: u64,
    collider2: u64,
    players: &PlayerRegistry,
) -> (resolved: Result<Option<(Side, Player)>, ContactError>)
    ensures
        match involvement(collider1, collider2, players@) {
            Involvement::TwoPlayers => resolved == Err::<Option<(Side, Player)>, ContactError>(
                ContactError::TwoPlayers { collider1, collider2 },
            ),
            Involvement::OnePlayer { side, state } => resolved matches Ok(Some((s, p))) && s == side
                && p@ == state,
            Involvement::NoPlayer => resolved matches Ok(None),
        },
{
    let first: Option<Player> = players.get(collider1);
    let second: Option<Player> = players.get(collider2);
    match (first, second) {
        (Some(_), Some(_)) => Err(ContactError::TwoPlayers { collider1, collider2 }),
        (Some(player), None) => Ok(Some((Side::First, player))),
        (None, Some(player)) => Ok(Some((Side::Second, player))),
        (None, None) => Ok(None),
    }
}

/// The tangential target for a player on `side` of a pair.
pub fn target_for(player: &Player, side: Side) -> (target: Vec3)
    ensures
        target@ == target_velocity(player@, side),
{
    let velocity: Vec3 = player.walk_velocity();
    proof {
        player@.lemma_components_bounded();
        assert(MAX_WALK_SPEED * ONE < 0x8000_0000);
    }
    match side {
        Side::First => velocity,
        Side::Second => velocity.neg(),
    }
}

/// Writes the player's target velocity into every ground manifold of the
/// pair and leaves the others untouched. Returns whether the pair holds a
/// ground manifold.
pub fn inject_walk(contacts: &mut ContactPair, player: &Player, side: Side) -> (grounded: bool)
    ensures
        final(contacts)@ == injected(old(contacts)@, player@, side),
        grounded == touches_ground(old(contacts)@, side),
{
    let target: Vec3 = target_for(player, side);
    let ghost before: Seq<ContactManifold> = contacts.manifolds@;
    let mut grounded: bool = false;
    let mut i: usize = 0;
    while i < contacts.manifolds.len()
        invariant
            i <= contacts.manifolds.len(),
            contacts.manifolds.len() == before.len(),
            contacts.collider1 == old(contacts).collider1,
            contacts.collider2 == old(contacts).collider2,
            before == old(contacts).manifolds@,
            target@ == target_velocity(player@, side),
            forall|k: int|
                0 <= k < i ==> (#[trigger] contacts.manifolds[k])@ == injected_manifold(
                    before[k]@,
                    player@,
                    side,
                ),
            forall|k: int| i <= k < before.len() ==> #[trigger] contacts.manifolds[k] == before[k],
            grounded == ground_among(old(contacts)@.manifolds, side, i as int),
        decreases contacts.manifolds.len() - i,
    {
        let manifold: ContactManifold = contacts.manifolds[i];
        proof {
            let seen = old(contacts)@.manifolds;
            assert(seen[i as int] == manifold@);
            if is_ground(manifold@.normal, side) {
                assert(ground_among(seen, side, i + 1));
            } else if ground_among(seen, side, i + 1) {
                let k = choose|k: int| 0 <= k < i + 1 && is_ground((#[trigger] seen[k]).normal, side);
                assert(k < i);
            }
        }
        match classify(&manifold.normal, side) {
            GroundClassification::Ground => {
                contacts.manifolds.set(
                    i,
                    ContactManifold { normal: manifold.normal, tangent_velocity: target },
                );
                grounded = true;
            },
            GroundClassification::NonGround => {},
        }
        i += 1;
    }
    proof {
        let done = contacts@;
        let wanted = injected(old(contacts)@, player@, side);
        assert(done.manifolds =~= wanted.manifolds);
    }
    grounded
}

/// The contact hook, called once for each contact pair before the solver
/// runs.
///
/// A pair that holds no player is left alone. In a pair that holds one
/// player, every ground manifold gets that player's walk velocity as its
/// tangential target, with the sign of the player's side; walls and
/// ceilings are left alone, and a jump that the player asked for is
/// reported as a grounded jump if the pair holds ground. A pair that
/// holds two players is refused and left as it was.
pub fn modify_contacts(contacts: &mut ContactPair, players: &PlayerRegistry) -> (decision: Result<
    ContactDecision,
    ContactError,
>)
    ensures
        match involvement(old(contacts)@.collider1, old(contacts)@.collider2, players@) {
            Involvement::TwoPlayers => {
                &&& decision == Err::<ContactDecision, ContactError>(
                    ContactError::TwoPlayers {
                        collider1: old(contacts)@.collider1,
                        collider2: old(contacts)@.collider2,
                    },
                )
                &&& final(contacts)@ == old(contacts)@
            },
            Involvement::OnePlayer { side, state } => {
                &&& decision == Ok::<ContactDecision, ContactError>(
                    ContactDecision {
                        keep_enabled: true,
                        grounded_jump: state.jump && touches_ground(old(contacts)@, side),
                    },
                )
                &&& final(contacts)@ == injected(old(contacts)@, state, side)
            },
            Involvement::NoPlayer => {
                &&& decision == Ok::<ContactDecision, ContactError>(
                    ContactDecision { keep_enabled: true, grounded_jump: false },
                )
                &&& final(contacts)@ == old(contacts)@
            },
        },
{
    match resolve_side(contacts.collider1, contacts.collider2, players) {
        Err(error) => Err(error),
        Ok(None) => Ok(ContactDecision { keep_enabled: true, grounded_jump: false }),
        Ok(Some((side, player))) => {
            let grounded: bool = inject_walk(contacts, &player, side);
            Ok(ContactDecision { keep_enabled: true, grounded_jump: player.jump() && grounded })
        },
    }
}

} // verus!
