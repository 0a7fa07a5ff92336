//! What one control tick sees of the keyboard.

use vstd::prelude::*;

verus! {

/// The walking and jumping keys as one control tick saw them. A direction
/// key may be bound to several physical keys; the field is set while any of
/// them is held.
#[derive(Clone, Copy, Debug, PartialEq, Eq, Structural)]
pub struct KeySnapshot {
    /// W or the up arrow is held: walk against the camera's forward axis.
    pub up: bool,
    /// S or the down arrow is held: walk along the camera's forward axis.
    pub down: bool,
    /// A or the left arrow is held: walk against the camera's right axis.
    pub left: bool,
    /// D or the right arrow is held: walk along the camera's right axis.
    pub right: bool,
    /// The jump key went from released to pressed during this tick.
    pub jump_pressed: bool,
}

impl KeySnapshot {
    /// How far the held keys push along the forward axis: -1, 0 or 1.
    /// Opposite keys cancel.
    pub open spec fn spec_forward_axis(&self) -> i32 {
        if self.down == self.up {
            0i32
        } else if self.down {
            1i32
        } else {
            -1i32
        }
    }

    /// How far the held keys push along the right axis: -1, 0 or 1.
    /// Opposite keys cancel.
    pub open spec fn spec_right_axis(&self) -> i32 {
        if self.right == self.left {
            0i32
        } else if self.right {
            1i32
        } else {
            -1i32
        }
    }

    /// No direction key pushes: none is held, or each is cancelled by its
    /// opposite.
    pub open spec fn spec_is_idle(&self) -> bool {
        self.up == self.down && self.left == self.right
    }

    /// The snapshot of an untouched keyboard.
    pub fn released() -> (keys: KeySnapshot)
        ensures
            !keys.up,
            !keys.down,
            !keys.left,
            !keys.right,
            !keys.jump_pressed,
    {
        KeySnapshot { up: false, down: false, left: false, right: false, jump_pressed: false }
    }

    /// How far the held keys push along the forward axis: -1, 0 or 1.
    #[verifier::when_used_as_spec(spec_forward_axis)]
    pub fn forward_axis(&self) -> (axis: i32)
        ensures
            axis == self.spec_forward_axis(),
    {
        if self.down == self.up {
            0
        } else if self.down {
            1
        } else {
            -1
        }
    }

    /// How far the held keys push along the right axis: -1, 0 or 1.
    #[verifier::when_used_as_spec(spec_right_axis)]
    pub fn right_axis(&self) -> (axis: i32)
        ensures
            axis == self.spec_right_axis(),
    {
        if self.right == self.left {
            0
        } else if self.right {
            1
        } else {
            -1
        }
    }

    /// Whether no direction key pushes.
    #[verifier::when_used_as_spec(spec_is_idle)]
    pub fn is_idle(&self) -> (idle: bool)
        ensures
            idle == self.spec_is_idle(),
    {
        self.up == self.down && self.left == self.right
    }
}

} // verus!
