//! The locomotion state of a player.

use vstd::prelude::*;
use crate::scalar::ONE;
use crate::vec3::{Vec3, Vector};

verus! {

/// The greatest walking speed, in whole units per second.
pub const MAX_WALK_SPEED: i32 = 2;

/// The square of the greatest walking speed, written out.
pub proof fn lemma_max_speed_squared()
    ensures
        (MAX_WALK_SPEED * ONE) * (MAX_WALK_SPEED * ONE) == 4_000_000_000_000,
{
    assert((MAX_WALK_SPEED * ONE) * (MAX_WALK_SPEED * ONE) == 4_000_000_000_000)
        by (nonlinear_arith)
        requires
            ONE == 1_000_000,
            MAX_WALK_SPEED == 2,
    ;
}

/// What a player intends, as the contracts see it.
pub struct PlayerState {
    /// The velocity the player wants to walk with, in world space.
    pub walk_velocity: Vector,
    /// A jump was asked for in the tick that wrote this state.
    pub jump: bool,
}

impl PlayerState {
    /// The walk velocity is horizontal and no faster than
    /// `MAX_WALK_SPEED`.
    pub open spec fn is_valid(self) -> bool {
        &&& self.walk_velocity.y == 0
        &&& self.walk_velocity.norm_squared() <= (MAX_WALK_SPEED * ONE) * (MAX_WALK_SPEED * ONE)
    }

    /// Standing still with no jump asked for.
    pub open spec fn at_rest() -> PlayerState {
        PlayerState { walk_velocity: Vector::zero(), jump: false }
    }

    /// No component of a valid walk velocity exceeds the greatest speed.
    pub proof fn lemma_components_bounded(self)
        requires
            self.is_valid(),
        ensures
            -MAX_WALK_SPEED * ONE <= self.walk_velocity.x <= MAX_WALK_SPEED * ONE,
            self.walk_velocity.y == 0,
            -MAX_WALK_SPEED * ONE <= self.walk_velocity.z <= MAX_WALK_SPEED * ONE,
    {
        let v = self.walk_velocity;
        let max = MAX_WALK_SPEED * ONE;
        assert(-max <= v.x <= max && -max <= v.z <= max) by (nonlinear_arith)
            requires
                v.x * v.x + v.y * v.y + v.z * v.z <= max * max,
                v.y == 0,
                max >= 0,
        ;
    }
}

/// The locomotion state of one player: written once per control tick,
/// read while contacts are processed.
#[derive(Clone, Copy, Debug, PartialEq, Eq)]
pub struct Player {
    walk_velocity: Vec3,
    jump: bool,
}

impl View for Player {
    type V = PlayerState;

    closed spec fn view(&self) -> PlayerState {
        PlayerState { walk_velocity: self.walk_velocity@, jump: self.jump }
    }
}

impl Player {
    #[verifier::type_invariant]
    closed spec fn inv(self) -> bool {
        self@.is_valid()
    }

    /// A player with the given state, or `None` where the velocity leaves
    /// the ground plane or exceeds the greatest walking speed.
    pub fn new(walk_velocity: Vec3, jump: bool) -> (player: Option<Player>)
        ensures
            player is Some <==> (PlayerState { walk_velocity: walk_velocity@, jump }).is_valid(),
            player matches Some(p) ==> p@ == (PlayerState { walk_velocity: walk_velocity@, jump }),
    {
        let max_speed: u64 = (MAX_WALK_SPEED as u64) * (ONE as u64);
        proof {
            lemma_max_speed_squared();
        }
        if walk_velocity.y == 0 && walk_velocity.norm_squared() <= max_speed * max_speed {
            Some(Player { walk_velocity, jump })
        } else {
            None
        }
    }

    /// A player with a state that is known to be valid.
    pub(crate) fn from_valid(walk_velocity: Vec3, jump: bool) -> (player: Player)
        requires
            (PlayerState { walk_velocity: walk_velocity@, jump }).is_valid(),
        ensures
            player@ == (PlayerState { walk_velocity: walk_velocity@, jump }),
    {
        Player { walk_velocity, jump }
    }

    /// The velocity the player wants to walk with. It is horizontal and no
    /// faster than `MAX_WALK_SPEED`.
    pub fn walk_velocity(&self) -> (v: Vec3)
        ensures
            v@ == self@.walk_velocity,
            self@.is_valid(),
    {
        proof {
            use_type_invariant(self);
        }
        self.walk_velocity
    }

    /// Whether the tick that wrote this state asked for a jump.
    pub fn jump(&self) -> (jump: bool)
        ensures
            jump == self@.jump,
    {
        self.jump
    }
}

impl Default for Player {
    /// A player as it is spawned: at rest, with no jump asked for.
    fn default() -> (player: Player)
        ensures
            player@ == PlayerState::at_rest(),
    {
        Player { walk_velocity: Vec3::zero(), jump: false }
    }
}

} // verus!
