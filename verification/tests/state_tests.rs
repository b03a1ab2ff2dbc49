use woofer::codec::decode_snapshot;
use woofer::model::CommandEnvelope;
use woofer::model::Orientation;
use woofer::model::PoseSnapshot;
use woofer::state::GuardedState;

#[test]
fn new_state_holds_zero_pose() {
    let state = GuardedState::new();
    assert_eq!(state.read(), PoseSnapshot::zero());
}

#[test]
fn apply_replaces_body_and_keeps_legs() {
    let mut state = GuardedState::new();
    let before = state.read();
    let body = Orientation { x: 1, y: 2, z: 3, w: 999994 };
    state.apply(&CommandEnvelope::Pose { body });
    let after = state.read();
    assert_eq!(after.body, body);
    assert_eq!(after.front_left_leg, before.front_left_leg);
    assert_eq!(after.front_right_leg, before.front_right_leg);
    assert_eq!(after.back_left_leg, before.back_left_leg);
    assert_eq!(after.back_right_leg, before.back_right_leg);
}

#[test]
fn reads_are_whole_post_states() {
    let mut state = GuardedState::new();
    let first = Orientation { x: 100, y: 0, z: 0, w: 999999 };
    let second = Orientation { x: 0, y: 200, z: 0, w: 999998 };
    state.apply(&CommandEnvelope::Pose { body: first });
    let mid = state.read();
    state.apply(&CommandEnvelope::Pose { body: second });
    let end = state.read();
    // each observed snapshot is exactly the post-state of one command,
    // never a blend of the two
    assert_eq!(mid.body, first);
    assert_eq!(end.body, second);
    assert_eq!(end.front_left_leg, PoseSnapshot::zero().front_left_leg);
}

#[test]
fn pose_command_applies_and_streams_back() {
    // device holds the zero pose; the client posts an identity pose command;
    // the next streamed snapshot carries that body and all-zero legs
    let mut state = GuardedState::new();
    let request = b"{\"kind\":\"pose\",\"data\":{\"body\":{\"x\":0,\"y\":0,\"z\":0,\"w\":1}}}"
        .to_vec();
    let accepted = state.handle_command_bytes(&request);
    assert!(accepted);
    let event = state.publish_tick();
    let streamed = decode_snapshot(&event).unwrap();
    assert_eq!(streamed.body, Orientation { x: 0, y: 0, z: 0, w: 1000000 });
    assert_eq!(streamed.front_left_leg, PoseSnapshot::zero().front_left_leg);
    assert_eq!(streamed.front_right_leg, PoseSnapshot::zero().front_right_leg);
    assert_eq!(streamed.back_left_leg, PoseSnapshot::zero().back_left_leg);
    assert_eq!(streamed.back_right_leg, PoseSnapshot::zero().back_right_leg);
}

#[test]
fn malformed_command_is_rejected_and_state_unchanged() {
    let mut state = GuardedState::new();
    let before = state.publish_tick();
    let accepted = state.handle_command_bytes(&b"{not json".to_vec());
    assert!(!accepted);
    assert_eq!(state.publish_tick(), before);
}

#[test]
fn unknown_discriminant_is_rejected_and_state_unchanged() {
    let mut state = GuardedState::new();
    let before = state.read();
    let request = b"{\"kind\":\"walk\",\"data\":{\"body\":{\"x\":0,\"y\":0,\"z\":0,\"w\":1}}}"
        .to_vec();
    assert!(!state.handle_command_bytes(&request));
    assert_eq!(state.read(), before);
}
