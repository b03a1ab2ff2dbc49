//! The command emitter: once per tick, turn the local input's orientation
//! reading into one command envelope and hand it to the outbound queue.
//!
//! The input is a stick deflection, already resolved into the sines and
//! cosines of the two half-angles (fixed-point, in millionths). The body
//! orientation is the rotation about the first axis followed by the
//! rotation about the second — the order is fixed — which the quaternion
//! product below composes exactly. When the input source is not available
//! the tick is a no-op, not an error; the sender side pops envelopes one at
//! a time, in order, and posts each before the next.

use vstd::prelude::*;

use crate::codec::encode_command;
use crate::codec::spec_command_bytes;
use crate::model::CommandEnvelope;
use crate::model::Orientation;
use crate::model::MICRO;
use crate::queue::command_queue_contents;
use crate::queue::command_queue_wf;
use crate::queue::CommandQueue;

verus! {

/// One orientation reading from the input device: the sine and cosine of
/// half the rotation angle about each of the two stick axes, in millionths.
#[derive(Clone, Copy, Debug, PartialEq, Eq, Structural)]
pub struct StickRotation {
    pub sin_x: i64,
    pub cos_x: i64,
    pub sin_y: i64,
    pub cos_y: i64,
}

impl StickRotation {
    /// Sines and cosines have magnitude at most one.
    pub open spec fn wf(self) -> bool {
        -MICRO <= self.sin_x <= MICRO && -MICRO <= self.cos_x <= MICRO && -MICRO <= self.sin_y
            <= MICRO && -MICRO <= self.cos_y <= MICRO
    }
}

/// The fixed-point product of two values in millionths, truncated toward
/// zero.
pub open spec fn mul_fix(a: int, b: int) -> int {
    if a * b >= 0 {
        (a * b) / 1000000
    } else {
        -((-(a * b)) / 1000000)
    }
}

/// The body orientation for one reading: the quaternion product of the
/// rotation about the first stick axis (components `(sin_x, 0, 0, cos_x)`)
/// and the rotation about the second (components `(0, sin_y, 0, cos_y)`),
/// in that order.
pub open spec fn spec_compose(r: StickRotation) -> Orientation {
    Orientation {
        x: mul_fix(r.sin_x as int, r.cos_y as int) as i64,
        y: mul_fix(r.cos_x as int, r.sin_y as int) as i64,
        z: mul_fix(r.sin_x as int, r.sin_y as int) as i64,
        w: mul_fix(r.cos_x as int, r.cos_y as int) as i64,
    }
}

/// The fixed-point product of two values of magnitude at most one.
pub fn fix_mul(a: i64, b: i64) -> (r: i64)
    requires
        -MICRO <= a <= MICRO,
        -MICRO <= b <= MICRO,
    ensures
        r as int == mul_fix(a as int, b as int),
        -MICRO <= r <= MICRO,
{
    proof {
        lemma_mul_bound(a as int, b as int);
    }
    let p: i64 = a * b;
    let m: u64 = if p < 0 {
        (-p) as u64
    } else {
        p as u64
    };
    let d: i64 = (m / 1000000) as i64;
    if p < 0 {
        -d
    } else {
        d
    }
}

/// The product of two factors of magnitude at most one million has
/// magnitude at most one million squared, and its millionth part at most
/// one million.
proof fn lemma_mul_bound(a: int, b: int)
    requires
        -1000000 <= a <= 1000000,
        -1000000 <= b <= 1000000,
    ensures
        -1000000000000 <= a * b <= 1000000000000,
{
    assert(-1000000000000 <= a * b <= 1000000000000) by (nonlinear_arith)
        requires
            -1000000 <= a <= 1000000,
            -1000000 <= b <= 1000000,
    ;
}

/// Compose the two single-axis rotations of one reading into the body
/// orientation, exactly as [`spec_compose`] states it.
pub fn compose_rotation_xy(r: &StickRotation) -> (q: Orientation)
    requires
        r.wf(),
    ensures
        q == spec_compose(*r),
        q.wf(),
{
    Orientation {
        x: fix_mul(r.sin_x, r.cos_y),
        y: fix_mul(r.cos_x, r.sin_y),
        z: fix_mul(r.sin_x, r.sin_y),
        w: fix_mul(r.cos_x, r.cos_y),
    }
}

/// One emitter tick: with a reading in hand, push exactly one pose command
/// composed from it onto the outbound queue; with no reading (input not yet
/// connected), change nothing.
pub fn emit_tick(q: &mut CommandQueue, reading: Option<StickRotation>)
    requires
        reading matches Some(r) ==> r.wf(),
        command_queue_wf(*old(q)),
    ensures
        match reading {
            Some(r) => command_queue_contents(*final(q)) == command_queue_contents(*old(q)).push(
                CommandEnvelope::Pose { body: spec_compose(r) },
            ),
            None => command_queue_contents(*final(q)) == command_queue_contents(*old(q)),
        },
        command_queue_wf(*final(q)),
{
    match reading {
        Some(r) => {
            let body = compose_rotation_xy(&r);
            q.push(CommandEnvelope::Pose { body });
            proof {
                let pre = command_queue_contents(*old(q));
                let post = command_queue_contents(*q);
                assert forall|k: int| 0 <= k < post.len() implies (#[trigger] post[k]).wf() by {
                    if k < pre.len() {
                        assert(post[k] == pre[k]);
                    }
                }
            }
        },
        None => {},
    }
}

/// One step of the network sender: pop the oldest pending command, if any,
/// and hand back its encoded request body. The queue loses exactly that
/// command; an empty queue stays empty and yields nothing, without waiting.
pub fn next_command_bytes(q: &mut CommandQueue) -> (r: Option<Vec<u8>>)
    requires
        command_queue_wf(*old(q)),
    ensures
        command_queue_wf(*final(q)),
        match r {
            Some(b) => command_queue_contents(*old(q)).len() > 0 && b@ == spec_command_bytes(
                command_queue_contents(*old(q))[0],
            ) && command_queue_contents(*final(q)) == command_queue_contents(*old(q)).skip(1),
            None => command_queue_contents(*old(q)).len() == 0 && command_queue_contents(*final(q))
                == command_queue_contents(*old(q)),
        },
{
    match q.try_pop() {
        Some(c) => {
            proof {
                let pre = command_queue_contents(*old(q));
                let post = command_queue_contents(*q);
                assert(c == pre[0] && c.wf());
                assert forall|k: int| 0 <= k < post.len() implies (#[trigger] post[k]).wf() by {
                    assert(post[k] == pre[k + 1]);
                }
            }
            Some(encode_command(&c))
        },
        None => None,
    }
}

} // verus!
