//! Shared data shapes: joint angles, body orientation, the full pose
//! snapshot, and the command envelope.
//!
//! Angles and quaternion components are carried as fixed-point integers in
//! millionths (an angle of 1.5 radians is stored as 1_500_000), so that the
//! protocol logic is exact integer arithmetic end to end.

use vstd::prelude::*;

verus! {

/// Fixed-point scale: one unit equals one millionth.
pub const MICRO: i64 = 1_000_000;

/// Largest magnitude, in millionths, that a value carried by the protocol
/// may have. Any real joint angle (radians) or unit-quaternion component is
/// far inside this bound; it is what the wire format can represent.
pub const MAX_COORD: i64 = 1_000_000_000_000_000;

/// A value is representable when its magnitude stays within [`MAX_COORD`].
pub open spec fn coord_wf(a: int) -> bool {
    -(MAX_COORD as int) <= a <= MAX_COORD as int
}

/// Three joint angles of one leg, in micro-radians.
#[derive(Clone, Copy, Debug, PartialEq, Eq, Structural)]
pub struct JointTriplet {
    pub shoulder: i64,
    pub arm: i64,
    pub wrist: i64,
}

/// A body orientation: quaternion components in millionths. The identity
/// orientation is `x == y == z == 0, w == MICRO`.
#[derive(Clone, Copy, Debug, PartialEq, Eq, Structural)]
pub struct Orientation {
    pub x: i64,
    pub y: i64,
    pub z: i64,
    pub w: i64,
}

/// The full instantaneous posture of the device: one body orientation and
/// the four legs. A new snapshot fully replaces the old one; there are no
/// partial updates in this protocol version.
#[derive(Clone, Copy, Debug, PartialEq, Eq, Structural)]
pub struct PoseSnapshot {
    pub body: Orientation,
    pub front_left_leg: JointTriplet,
    pub front_right_leg: JointTriplet,
    pub back_left_leg: JointTriplet,
    pub back_right_leg: JointTriplet,
}

/// A requested state change. A tagged union with one variant today,
/// designed to grow further variants without a breaking wire change.
#[derive(Clone, Copy, Debug, PartialEq, Eq, Structural)]
pub enum CommandEnvelope {
    Pose { body: Orientation },
}

impl JointTriplet {
    /// All three angles are representable.
    pub open spec fn wf(self) -> bool {
        coord_wf(self.shoulder as int) && coord_wf(self.arm as int) && coord_wf(
            self.wrist as int,
        )
    }

    /// The zero triplet, the posture at process start.
    pub open spec fn zero_spec() -> JointTriplet {
        JointTriplet { shoulder: 0, arm: 0, wrist: 0 }
    }

    pub fn zero() -> (t: JointTriplet)
        ensures
            t == JointTriplet::zero_spec(),
            t.wf(),
    {
        JointTriplet { shoulder: 0, arm: 0, wrist: 0 }
    }
}

impl Orientation {
    /// All four components are representable.
    pub open spec fn wf(self) -> bool {
        coord_wf(self.x as int) && coord_wf(self.y as int) && coord_wf(self.z as int)
            && coord_wf(self.w as int)
    }

    /// The identity orientation (no rotation).
    pub open spec fn identity_spec() -> Orientation {
        Orientation { x: 0, y: 0, z: 0, w: MICRO }
    }

    pub fn identity() -> (q: Orientation)
        ensures
            q == Orientation::identity_spec(),
            q.wf(),
    {
        Orientation { x: 0, y: 0, z: 0, w: MICRO }
    }
}

impl PoseSnapshot {
    /// Every carried value is representable; the wire format and the
    /// guarded state maintain this invariant.
    pub open spec fn wf(self) -> bool {
        self.body.wf() && self.front_left_leg.wf() && self.front_right_leg.wf()
            && self.back_left_leg.wf() && self.back_right_leg.wf()
    }

    /// The zero pose: identity body orientation, all joints at zero.
    pub open spec fn zero_spec() -> PoseSnapshot {
        PoseSnapshot {
            body: Orientation::identity_spec(),
            front_left_leg: JointTriplet::zero_spec(),
            front_right_leg: JointTriplet::zero_spec(),
            back_left_leg: JointTriplet::zero_spec(),
            back_right_leg: JointTriplet::zero_spec(),
        }
    }

    pub fn zero() -> (s: PoseSnapshot)
        ensures
            s == PoseSnapshot::zero_spec(),
            s.wf(),
    {
        PoseSnapshot {
            body: Orientation::identity(),
            front_left_leg: JointTriplet::zero(),
            front_right_leg: JointTriplet::zero(),
            back_left_leg: JointTriplet::zero(),
            back_right_leg: JointTriplet::zero(),
        }
    }
}

impl CommandEnvelope {
    /// The payload carried by the envelope is representable.
    pub open spec fn wf(self) -> bool {
        match self {
            CommandEnvelope::Pose { body } => body.wf(),
        }
    }
}

} // verus!
