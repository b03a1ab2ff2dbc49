use woofer::bridge::frame_tick;
use woofer::bridge::snapshot_updates;
use woofer::bridge::JointKind;
use woofer::bridge::JointUpdate;
use woofer::bridge::LegId;
use woofer::model::JointTriplet;
use woofer::model::Orientation;
use woofer::model::PoseSnapshot;
use woofer::queue::SnapshotQueue;

fn sample(offset: i64) -> PoseSnapshot {
    PoseSnapshot {
        body: Orientation::identity(),
        front_left_leg: JointTriplet { shoulder: offset + 1, arm: offset + 2, wrist: offset + 3 },
        front_right_leg: JointTriplet { shoulder: offset + 4, arm: offset + 5, wrist: offset + 6 },
        back_left_leg: JointTriplet { shoulder: offset + 7, arm: offset + 8, wrist: offset + 9 },
        back_right_leg: JointTriplet {
            shoulder: offset + 10,
            arm: offset + 11,
            wrist: offset + 12,
        },
    }
}

#[test]
fn twelve_updates_in_fixed_order() {
    let s = sample(0);
    let ups = snapshot_updates(&s);
    assert_eq!(ups.len(), 12);
    assert_eq!(ups[0], JointUpdate { leg: LegId::FrontLeft, joint: JointKind::Shoulder, angle: 1 });
    assert_eq!(ups[1], JointUpdate { leg: LegId::FrontLeft, joint: JointKind::Arm, angle: 2 });
    assert_eq!(ups[2], JointUpdate { leg: LegId::FrontLeft, joint: JointKind::Wrist, angle: 3 });
    assert_eq!(
        ups[3],
        JointUpdate { leg: LegId::FrontRight, joint: JointKind::Shoulder, angle: 4 },
    );
    assert_eq!(ups[11], JointUpdate { leg: LegId::BackRight, joint: JointKind::Wrist, angle: 12 });
}

#[test]
fn frame_tick_applies_every_snapshot_in_order() {
    let mut q = SnapshotQueue::new();
    q.push(sample(0));
    q.push(sample(100));
    let ups = frame_tick(&mut q);
    assert_eq!(ups.len(), 24);
    assert_eq!(ups[0].angle, 1);
    assert_eq!(ups[11].angle, 12);
    assert_eq!(ups[12].angle, 101);
    assert_eq!(ups[23].angle, 112);
    // the queue was drained whole
    assert_eq!(q.try_pop(), None);
}

#[test]
fn frame_tick_on_empty_queue_returns_nothing() {
    let mut q = SnapshotQueue::new();
    let ups = frame_tick(&mut q);
    assert_eq!(ups.len(), 0);
}
