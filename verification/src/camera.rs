//! The controlling camera, reduced to what walking reads of it: its yaw.

use vstd::prelude::*;
use crate::scalar::ONE;
use crate::vec3::{Vec3, Vector};

verus! {

/// A yaw angle about the up axis, held as its cosine and sine in
/// fixed-point.
pub struct Heading {
    pub cos: int,
    pub sin: int,
}

impl Heading {
    /// Each component is at most one unit in magnitude, as a cosine or a
    /// sine is, and the two are not both zero. Walking normalises what it
    /// derives from a heading, so it asks no more.
    pub open spec fn is_valid(self) -> bool {
        &&& -ONE <= self.cos <= ONE
        &&& -ONE <= self.sin <= ONE
        &&& (self.cos != 0 || self.sin != 0)
    }

    /// The horizontal direction the camera looks along: the negative z axis
    /// turned by the yaw.
    pub open spec fn forward(self) -> Vector {
        Vector { x: -self.sin, y: 0, z: -self.cos }
    }

    /// The negative x axis turned by the yaw.
    pub open spec fn right(self) -> Vector {
        Vector { x: -self.cos, y: 0, z: self.sin }
    }
}

/// The camera that steers the player. Pitch and roll play no part in
/// walking, so only the yaw is kept.
#[derive(Clone, Copy, Debug, PartialEq, Eq)]
pub struct PlayerCamera {
    cos_yaw: i32,
    sin_yaw: i32,
}

impl View for PlayerCamera {
    type V = Heading;

    closed spec fn view(&self) -> Heading {
        Heading { cos: self.cos_yaw as int, sin: self.sin_yaw as int }
    }
}

impl PlayerCamera {
    #[verifier::type_invariant]
    closed spec fn inv(self) -> bool {
        self@.is_valid()
    }

    /// A camera with the given yaw, or `None` where the pair cannot be a
    /// cosine and a sine or gives no direction.
    pub fn from_yaw(cos_yaw: i32, sin_yaw: i32) -> (camera: Option<PlayerCamera>)
        ensures
            camera is Some <==> (Heading { cos: cos_yaw as int, sin: sin_yaw as int }).is_valid(),
            camera matches Some(c) ==> c@ == (Heading { cos: cos_yaw as int, sin: sin_yaw as int }),
    {
        let in_range: bool = -ONE <= cos_yaw && cos_yaw <= ONE && -ONE <= sin_yaw && sin_yaw <= ONE;
        if in_range && (cos_yaw != 0 || sin_yaw != 0) {
            Some(PlayerCamera { cos_yaw, sin_yaw })
        } else {
            None
        }
    }

    /// The direction the camera looks along, projected to the ground.
    pub fn forward(&self) -> (v: Vec3)
        ensures
            v@ == self@.forward(),
            self@.is_valid(),
    {
        proof {
            use_type_invariant(self);
        }
        Vec3 { x: -self.sin_yaw, y: 0, z: -self.cos_yaw }
    }

    /// The negative x axis as the camera's yaw turns it.
    pub fn right(&self) -> (v: Vec3)
        ensures
            v@ == self@.right(),
            self@.is_valid(),
    {
        proof {
            use_type_invariant(self);
        }
        Vec3 { x: -self.cos_yaw, y: 0, z: self.sin_yaw }
    }
}

impl Default for PlayerCamera {
    /// A camera that looks along the negative z axis: yaw zero.
    fn default() -> (camera: PlayerCamera)
        ensures
            camera@ == (Heading { cos: ONE as int, sin: 0 }),
    {
        PlayerCamera { cos_yaw: ONE, sin_yaw: 0 }
    }
}

} // verus!
