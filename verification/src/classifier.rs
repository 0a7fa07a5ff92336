//! Telling ground from walls and ceilings by the contact normal.

use vstd::prelude::*;
use crate::scalar::ONE;
use crate::vec3::{Vec3, Vector};

verus! {

/// The least cosine, exclusive, between a contact normal and the up
/// direction for the contact to count as ground: 0.95 in fixed-point.
pub const GROUND_THRESHOLD: i32 = 950_000;

/// Which collider of a contact pair belongs to the player.
#[derive(Clone, Copy, Debug, PartialEq, Eq, Structural)]
pub enum Side {
    /// The player is the first collider of the pair.
    First,
    /// The player is the second collider of the pair.
    Second,
}

impl Side {
    /// The sign that turns the pair's normal and the player's velocity
    /// into the pair's frame: +1 for the first collider, -1 for the second.
    pub open spec fn sign(self) -> int {
        match self {
            Side::First => 1,
            Side::Second => -1,
        }
    }

    /// The side of the other collider.
    pub open spec fn spec_other(self) -> Side {
        match self {
            Side::First => Side::Second,
            Side::Second => Side::First,
        }
    }

    /// The side of the other collider.
    #[verifier::when_used_as_spec(spec_other)]
    pub fn other(self) -> (side: Side)
        ensures
            side == self.spec_other(),
    {
        match self {
            Side::First => Side::Second,
            Side::Second => Side::First,
        }
    }
}

/// What a contact is to a walking player.
#[derive(Clone, Copy, Debug, PartialEq, Eq, Structural)]
pub enum GroundClassification {
    /// A surface to walk on.
    Ground,
    /// A wall, a ceiling, or a slope too steep to walk on.
    NonGround,
}

/// The normal, seen from the player's side, lies within the threshold of
/// straight up.
pub open spec fn is_ground(normal: Vector, side: Side) -> bool {
    normal.scaled(side.sign()).dot(Vector::up()) > GROUND_THRESHOLD * ONE
}

/// What a contact with this normal is to the player on `side` of the pair.
pub open spec fn classification(normal: Vector, side: Side) -> GroundClassification {
    if is_ground(normal, side) {
        GroundClassification::Ground
    } else {
        GroundClassification::NonGround
    }
}

/// With the up direction along the y axis, a contact is ground exactly
/// when the signed y component of its normal exceeds the threshold.
pub proof fn lemma_is_ground(normal: Vector, side: Side)
    ensures
        is_ground(normal, side) <==> side.sign() * normal.y > GROUND_THRESHOLD,
{
    let s = side.sign();
    let n = normal.scaled(s);
    assert(n.dot(Vector::up()) > GROUND_THRESHOLD * ONE <==> s * normal.y > GROUND_THRESHOLD)
        by (nonlinear_arith)
        requires
            n.dot(Vector::up()) == n.x * 0 + n.y * ONE + n.z * 0,
            n.y == s * normal.y,
            ONE > 0,
    ;
}

/// Seeing a contact from the other collider turns its normal round, and the
/// two views agree on whether it is ground.
pub proof fn lemma_classification_side_symmetry(normal: Vector, side: Side)
    ensures
        classification(normal, side) == classification(normal.neg(), side.other()),
{
    lemma_is_ground(normal, side);
    lemma_is_ground(normal.neg(), side.other());
    assert(side.other().sign() * (-normal.y) == side.sign() * normal.y) by (nonlinear_arith)
        requires
            side.other().sign() == -side.sign(),
    ;
}

/// Classifies a contact by its normal, as seen from the player on `side`
/// of the pair.
pub fn classify(normal: &Vec3, side: Side) -> (class: GroundClassification)
    ensures
        class == classification(normal@, side),
{
    let upward: i128 = normal.dot(&Vec3::up());
    let seen: i128 = match side {
        Side::First => upward,
        Side::Second => -upward,
    };
    let threshold: i128 = (GROUND_THRESHOLD as i128) * (ONE as i128);
    proof {
        assert(seen == normal@.scaled(side.sign()).dot(Vector::up())) by (nonlinear_arith)
            requires
                upward == normal@.x * 0 + normal@.y * ONE + normal@.z * 0,
                normal@.scaled(side.sign()).dot(Vector::up()) == (side.sign() * normal@.x) * 0 + (
                side.sign() * normal@.y) * ONE + (side.sign() * normal@.z) * 0,
                side.sign() == 1 && seen == upward || side.sign() == -1 && seen == -upward,
        ;
    }
    if seen > threshold {
        GroundClassification::Ground
    } else {
        GroundClassification::NonGround
    }
}

} // verus!
