use woofer::codec::encode_command;
use woofer::emitter::compose_rotation_xy;
use woofer::emitter::emit_tick;
use woofer::emitter::next_command_bytes;
use woofer::emitter::StickRotation;
use woofer::model::CommandEnvelope;
use woofer::model::Orientation;
use woofer::queue::CommandQueue;

#[test]
fn compose_rotation_about_first_axis_only() {
    // half-angle 30 degrees about the first axis, nothing about the second
    let r = StickRotation { sin_x: 500000, cos_x: 866025, sin_y: 0, cos_y: 1000000 };
    let q = compose_rotation_xy(&r);
    assert_eq!(q, Orientation { x: 500000, y: 0, z: 0, w: 866025 });
}

#[test]
fn compose_mixes_both_axes() {
    let r = StickRotation { sin_x: 500000, cos_x: 866025, sin_y: 707106, cos_y: 707106 };
    let q = compose_rotation_xy(&r);
    // products in millionths, truncated toward zero
    assert_eq!(q.x, 500000 * 707106 / 1000000);
    assert_eq!(q.y, 866025 * 707106 / 1000000);
    assert_eq!(q.z, 500000 * 707106 / 1000000);
    assert_eq!(q.w, 866025 * 707106 / 1000000);
}

#[test]
fn fixed_point_product_truncates_toward_zero() {
    let r = StickRotation { sin_x: -500000, cos_x: 1000000, sin_y: 0, cos_y: 999999 };
    let q = compose_rotation_xy(&r);
    // -500000 * 999999 = -499999500000; toward zero gives -499999
    assert_eq!(q.x, -499999);
}

#[test]
fn emit_tick_without_reading_is_a_no_op() {
    let mut q = CommandQueue::new();
    emit_tick(&mut q, None);
    assert_eq!(q.try_pop(), None);
}

#[test]
fn emit_tick_pushes_one_composed_command() {
    let mut q = CommandQueue::new();
    let r = StickRotation { sin_x: 0, cos_x: 1000000, sin_y: 0, cos_y: 1000000 };
    emit_tick(&mut q, Some(r));
    let sent = q.drain();
    assert_eq!(sent, vec![CommandEnvelope::Pose { body: Orientation::identity() }]);
}

#[test]
fn sender_pops_encoded_commands_in_order() {
    let mut q = CommandQueue::new();
    let first = StickRotation { sin_x: 100000, cos_x: 994987, sin_y: 0, cos_y: 1000000 };
    let second = StickRotation { sin_x: 0, cos_x: 1000000, sin_y: 200000, cos_y: 979795 };
    emit_tick(&mut q, Some(first));
    emit_tick(&mut q, Some(second));
    let b1 = next_command_bytes(&mut q).unwrap();
    let b2 = next_command_bytes(&mut q).unwrap();
    assert_eq!(next_command_bytes(&mut q), None);
    let c1 = CommandEnvelope::Pose { body: compose_rotation_xy(&first) };
    let c2 = CommandEnvelope::Pose { body: compose_rotation_xy(&second) };
    assert_eq!(b1, encode_command(&c1));
    assert_eq!(b2, encode_command(&c2));
}
