//! The frame bridge: once per tick of the host's update loop, drain every
//! pending snapshot — without waiting — and turn each one, in delivery
//! order, into the twelve joint applications the kinematic collaborator
//! performs. Nothing is retained across ticks: every drained snapshot is
//! applied, not just the latest, so the order of updates is preserved.

use vstd::prelude::*;

use crate::model::PoseSnapshot;
use crate::queue::snapshot_queue_contents;
use crate::queue::SnapshotQueue;

verus! {

/// Which leg a joint update addresses.
#[derive(Clone, Copy, Debug, PartialEq, Eq, Structural)]
pub enum LegId {
    FrontLeft,
    FrontRight,
    BackLeft,
    BackRight,
}

/// Which joint of the leg.
#[derive(Clone, Copy, Debug, PartialEq, Eq, Structural)]
pub enum JointKind {
    Shoulder,
    Arm,
    Wrist,
}

/// One call to the kinematic collaborator: set this joint to this angle
/// (micro-radians).
#[derive(Clone, Copy, Debug, PartialEq, Eq, Structural)]
pub struct JointUpdate {
    pub leg: LegId,
    pub joint: JointKind,
    pub angle: i64,
}

/// The twelve joint applications of one snapshot, in the fixed order the
/// bridge performs them: front-left, front-right, back-left, back-right,
/// each shoulder then arm then wrist.
pub open spec fn spec_updates(s: PoseSnapshot) -> Seq<JointUpdate> {
    seq![
        JointUpdate { leg: LegId::FrontLeft, joint: JointKind::Shoulder, angle: s.front_left_leg.shoulder },
        JointUpdate { leg: LegId::FrontLeft, joint: JointKind::Arm, angle: s.front_left_leg.arm },
        JointUpdate { leg: LegId::FrontLeft, joint: JointKind::Wrist, angle: s.front_left_leg.wrist },
        JointUpdate { leg: LegId::FrontRight, joint: JointKind::Shoulder, angle: s.front_right_leg.shoulder },
        JointUpdate { leg: LegId::FrontRight, joint: JointKind::Arm, angle: s.front_right_leg.arm },
        JointUpdate { leg: LegId::FrontRight, joint: JointKind::Wrist, angle: s.front_right_leg.wrist },
        JointUpdate { leg: LegId::BackLeft, joint: JointKind::Shoulder, angle: s.back_left_leg.shoulder },
        JointUpdate { leg: LegId::BackLeft, joint: JointKind::Arm, angle: s.back_left_leg.arm },
        JointUpdate { leg: LegId::BackLeft, joint: JointKind::Wrist, angle: s.back_left_leg.wrist },
        JointUpdate { leg: LegId::BackRight, joint: JointKind::Shoulder, angle: s.back_right_leg.shoulder },
        JointUpdate { leg: LegId::BackRight, joint: JointKind::Arm, angle: s.back_right_leg.arm },
        JointUpdate { leg: LegId::BackRight, joint: JointKind::Wrist, angle: s.back_right_leg.wrist },
    ]
}

/// The joint applications of a whole run of snapshots, one dozen per
/// snapshot, in delivery order.
pub open spec fn spec_frame_updates(snaps: Seq<PoseSnapshot>) -> Seq<JointUpdate>
    decreases snaps.len(),
{
    if snaps.len() == 0 {
        Seq::empty()
    } else {
        spec_frame_updates(snaps.drop_last()) + spec_updates(snaps.last())
    }
}

/// One tick performs exactly twelve joint applications per drained
/// snapshot, whatever the snapshots hold.
pub proof fn lemma_twelve_updates_per_snapshot(snaps: Seq<PoseSnapshot>)
    ensures
        spec_frame_updates(snaps).len() == 12 * snaps.len(),
    decreases snaps.len(),
{
    if snaps.len() > 0 {
        lemma_twelve_updates_per_snapshot(snaps.drop_last());
    }
}

/// The twelve joint applications of one snapshot.
pub fn snapshot_updates(s: &PoseSnapshot) -> (v: Vec<JointUpdate>)
    ensures
        v@ == spec_updates(*s),
{
    let mut v: Vec<JointUpdate> = Vec::new();
    v.push(JointUpdate { leg: LegId::FrontLeft, joint: JointKind::Shoulder, angle: s.front_left_leg.shoulder });
    v.push(JointUpdate { leg: LegId::FrontLeft, joint: JointKind::Arm, angle: s.front_left_leg.arm });
    v.push(JointUpdate { leg: LegId::FrontLeft, joint: JointKind::Wrist, angle: s.front_left_leg.wrist });
    v.push(JointUpdate { leg: LegId::FrontRight, joint: JointKind::Shoulder, angle: s.front_right_leg.shoulder });
    v.push(JointUpdate { leg: LegId::FrontRight, joint: JointKind::Arm, angle: s.front_right_leg.arm });
    v.push(JointUpdate { leg: LegId::FrontRight, joint: JointKind::Wrist, angle: s.front_right_leg.wrist });
    v.push(JointUpdate { leg: LegId::BackLeft, joint: JointKind::Shoulder, angle: s.back_left_leg.shoulder });
    v.push(JointUpdate { leg: LegId::BackLeft, joint: JointKind::Arm, angle: s.back_left_leg.arm });
    v.push(JointUpdate { leg: LegId::BackLeft, joint: JointKind::Wrist, angle: s.back_left_leg.wrist });
    v.push(JointUpdate { leg: LegId::BackRight, joint: JointKind::Shoulder, angle: s.back_right_leg.shoulder });
    v.push(JointUpdate { leg: LegId::BackRight, joint: JointKind::Arm, angle: s.back_right_leg.arm });
    v.push(JointUpdate { leg: LegId::BackRight, joint: JointKind::Wrist, angle: s.back_right_leg.wrist });
    assert(v@ =~= spec_updates(*s));
    v
}

/// One tick of the frame bridge: drain the inbound queue completely,
/// without waiting, and produce the joint applications of every drained
/// snapshot, in delivery order. An empty queue yields an empty list at
/// once and the tick carries on.
pub fn frame_tick(q: &mut SnapshotQueue) -> (v: Vec<JointUpdate>)
    ensures
        v@ == spec_frame_updates(snapshot_queue_contents(*old(q))),
        snapshot_queue_contents(*final(q)).len() == 0,
{
    let snaps = q.drain();
    let mut v: Vec<JointUpdate> = Vec::new();
    let mut i: usize = 0;
    while i < snaps.len()
        invariant
            0 <= i <= snaps@.len(),
            v@ == spec_frame_updates(snaps@.take(i as int)),
        decreases snaps@.len() - i,
    {
        let mut upd = snapshot_updates(&snaps[i]);
        let ghost before = v@;
        let mut j: usize = 0;
        while j < upd.len()
            invariant
                0 <= j <= upd@.len(),
                upd@ == spec_updates(snaps@[i as int]),
                i < snaps@.len(),
                v@ == before + upd@.take(j as int),
            decreases upd@.len() - j,
        {
            v.push(upd[j]);
            proof {
                assert(v@ =~= before + upd@.take(j + 1 as int));
            }
            j = j + 1;
        }
        proof {
            assert(upd@.take(upd@.len() as int) =~= upd@);
            assert(snaps@.take(i + 1 as int).drop_last() =~= snaps@.take(i as int));
            assert(snaps@.take(i + 1 as int).last() == snaps@[i as int]);
        }
        i = i + 1;
    }
    proof {
        assert(snaps@.take(snaps@.len() as int) =~= snaps@);
    }
    v
}

} // verus!
