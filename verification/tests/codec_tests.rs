use woofer::codec::decode_command;
use woofer::codec::decode_snapshot;
use woofer::codec::encode_command;
use woofer::codec::encode_snapshot;
use woofer::model::CommandEnvelope;
use woofer::model::JointTriplet;
use woofer::model::Orientation;
use woofer::model::PoseSnapshot;

fn triplet(shoulder: i64, arm: i64, wrist: i64) -> JointTriplet {
    JointTriplet { shoulder, arm, wrist }
}

fn sample_snapshot() -> PoseSnapshot {
    PoseSnapshot {
        body: Orientation { x: 123456, y: -500000, z: 0, w: 866025 },
        front_left_leg: triplet(1, -1, 999999),
        front_right_leg: triplet(-1500000, 2000000, 0),
        back_left_leg: triplet(314159, -271828, 141421),
        back_right_leg: triplet(0, 0, -1000000),
    }
}

#[test]
fn round_trip_snapshot() {
    let s = sample_snapshot();
    let bytes = encode_snapshot(&s);
    let back = decode_snapshot(&bytes);
    assert_eq!(back, Some(s));
}

#[test]
fn round_trip_zero_snapshot() {
    let s = PoseSnapshot::zero();
    let bytes = encode_snapshot(&s);
    assert_eq!(decode_snapshot(&bytes), Some(s));
}

#[test]
fn encode_zero_snapshot_exact() {
    let s = PoseSnapshot::zero();
    let bytes = encode_snapshot(&s);
    let zero_triplet = "{\"shoulder\":0.000000,\"arm\":0.000000,\"wrist\":0.000000}";
    let expected = format!(
        "{{\"body\":{{\"x\":0.000000,\"y\":0.000000,\"z\":0.000000,\"w\":1.000000}},\"front_left_leg\":{},\"front_right_leg\":{},\"back_left_leg\":{},\"back_right_leg\":{}}}",
        zero_triplet, zero_triplet, zero_triplet, zero_triplet,
    );
    assert_eq!(String::from_utf8(bytes).unwrap(), expected);
}

#[test]
fn encode_negative_angle_exact() {
    let mut s = PoseSnapshot::zero();
    s.front_left_leg.shoulder = -1500000;
    let text = String::from_utf8(encode_snapshot(&s)).unwrap();
    assert!(text.contains("\"shoulder\":-1.500000"));
}

#[test]
fn round_trip_command() {
    let c = CommandEnvelope::Pose { body: Orientation { x: -1, y: 707106, z: 2, w: -707106 } };
    let bytes = encode_command(&c);
    assert_eq!(decode_command(&bytes), Some(c));
}

#[test]
fn encode_identity_command_exact() {
    let c = CommandEnvelope::Pose { body: Orientation::identity() };
    let text = String::from_utf8(encode_command(&c)).unwrap();
    assert_eq!(
        text,
        "{\"kind\":\"pose\",\"data\":{\"body\":{\"x\":0.000000,\"y\":0.000000,\"z\":0.000000,\"w\":1.000000}}}",
    );
}

#[test]
fn decode_command_accepts_bare_integers() {
    let body = b"{\"kind\":\"pose\",\"data\":{\"body\":{\"x\":0,\"y\":0,\"z\":0,\"w\":1}}}".to_vec();
    let decoded = decode_command(&body);
    assert_eq!(
        decoded,
        Some(CommandEnvelope::Pose { body: Orientation { x: 0, y: 0, z: 0, w: 1000000 } }),
    );
}

#[test]
fn decode_fraction_truncates_past_sixth_digit() {
    let body = b"{\"kind\":\"pose\",\"data\":{\"body\":{\"x\":0.1234567,\"y\":0,\"z\":0,\"w\":1}}}"
        .to_vec();
    match decode_command(&body) {
        Some(CommandEnvelope::Pose { body }) => assert_eq!(body.x, 123456),
        None => panic!("expected the command to decode"),
    }
}

#[test]
fn decode_rejects_malformed_json() {
    let cases: Vec<&[u8]> = vec![
        b"",
        b"{",
        b"not json at all",
        b"{\"kind\":\"pose\",\"data\":{\"body\":{\"x\":0,\"y\":0,\"z\":0,\"w\":}}}",
        b"{\"kind\":\"pose\",\"data\":{\"body\":{\"x\":0,\"y\":0,\"z\":0}}}",
        b"{\"kind\":\"pose\",\"data\":{\"body\":{\"x\":0,\"y\":0,\"z\":0,\"w\":1}}",
    ];
    for case in cases {
        assert_eq!(decode_command(&case.to_vec()), None);
    }
}

#[test]
fn decode_rejects_unknown_discriminant() {
    let body = b"{\"kind\":\"legs\",\"data\":{\"body\":{\"x\":0,\"y\":0,\"z\":0,\"w\":1}}}".to_vec();
    assert_eq!(decode_command(&body), None);
}

#[test]
fn decode_rejects_trailing_bytes() {
    let c = CommandEnvelope::Pose { body: Orientation::identity() };
    let mut bytes = encode_command(&c);
    bytes.push(b' ');
    assert_eq!(decode_command(&bytes), None);
}

#[test]
fn decode_rejects_oversized_whole_part() {
    let body =
        b"{\"kind\":\"pose\",\"data\":{\"body\":{\"x\":10000000000,\"y\":0,\"z\":0,\"w\":1}}}"
            .to_vec();
    assert_eq!(decode_command(&body), None);
}

#[test]
fn decode_rejects_missing_fraction_digit() {
    let body = b"{\"kind\":\"pose\",\"data\":{\"body\":{\"x\":0.,\"y\":0,\"z\":0,\"w\":1}}}".to_vec();
    assert_eq!(decode_command(&body), None);
}

#[test]
fn decode_snapshot_rejects_reordered_fields() {
    let zero_triplet = "{\"shoulder\":0.000000,\"arm\":0.000000,\"wrist\":0.000000}";
    let text = format!(
        "{{\"body\":{{\"y\":0.000000,\"x\":0.000000,\"z\":0.000000,\"w\":1.000000}},\"front_left_leg\":{},\"front_right_leg\":{},\"back_left_leg\":{},\"back_right_leg\":{}}}",
        zero_triplet, zero_triplet, zero_triplet, zero_triplet,
    );
    assert_eq!(decode_snapshot(&text.as_bytes().to_vec()), None);
}

#[test]
fn decode_negative_number() {
    let body = b"{\"kind\":\"pose\",\"data\":{\"body\":{\"x\":-1.500000,\"y\":0,\"z\":0,\"w\":1}}}"
        .to_vec();
    match decode_command(&body) {
        Some(CommandEnvelope::Pose { body }) => assert_eq!(body.x, -1500000),
        None => panic!("expected the command to decode"),
    }
}
