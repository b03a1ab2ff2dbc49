use woofer::model::CommandEnvelope;
use woofer::model::JointTriplet;
use woofer::model::Orientation;
use woofer::model::PoseSnapshot;
use woofer::queue::CommandQueue;
use woofer::queue::SnapshotQueue;

fn snapshot_numbered(n: i64) -> PoseSnapshot {
    PoseSnapshot {
        body: Orientation { x: n, y: 0, z: 0, w: 1000000 },
        front_left_leg: JointTriplet { shoulder: n, arm: 0, wrist: 0 },
        front_right_leg: JointTriplet { shoulder: 0, arm: n, wrist: 0 },
        back_left_leg: JointTriplet { shoulder: 0, arm: 0, wrist: n },
        back_right_leg: JointTriplet { shoulder: -n, arm: 0, wrist: 0 },
    }
}

#[test]
fn drain_of_empty_queue_returns_nothing() {
    let mut q = SnapshotQueue::new();
    let drained = q.drain();
    assert_eq!(drained.len(), 0);
}

#[test]
fn drain_returns_all_twelve_in_push_order() {
    let mut q = SnapshotQueue::new();
    for n in 1..=12 {
        q.push(snapshot_numbered(n));
    }
    let drained = q.drain();
    assert_eq!(drained.len(), 12);
    for n in 1..=12 {
        assert_eq!(drained[n - 1], snapshot_numbered(n as i64));
    }
}

#[test]
fn drain_leaves_queue_empty_and_usable() {
    let mut q = SnapshotQueue::new();
    q.push(snapshot_numbered(1));
    q.push(snapshot_numbered(2));
    assert_eq!(q.drain().len(), 2);
    assert_eq!(q.drain().len(), 0);
    q.push(snapshot_numbered(3));
    let again = q.drain();
    assert_eq!(again.len(), 1);
    assert_eq!(again[0], snapshot_numbered(3));
}

#[test]
fn try_pop_yields_oldest_first_then_nothing() {
    let mut q = SnapshotQueue::new();
    q.push(snapshot_numbered(7));
    q.push(snapshot_numbered(8));
    assert_eq!(q.try_pop(), Some(snapshot_numbered(7)));
    assert_eq!(q.try_pop(), Some(snapshot_numbered(8)));
    assert_eq!(q.try_pop(), None);
}

#[test]
fn command_queue_keeps_push_order() {
    let mut q = CommandQueue::new();
    let first = CommandEnvelope::Pose { body: Orientation { x: 1, y: 0, z: 0, w: 999999 } };
    let second = CommandEnvelope::Pose { body: Orientation { x: 0, y: 2, z: 0, w: 999998 } };
    q.push(first);
    q.push(second);
    let drained = q.drain();
    assert_eq!(drained, vec![first, second]);
    assert_eq!(q.try_pop(), None);
}
