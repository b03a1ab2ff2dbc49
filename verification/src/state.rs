//! The device's authoritative pose and how commands change it.
//!
//! `GuardedState` owns the single authoritative [`PoseSnapshot`]. Every
//! access copies the whole value in or out, so a reader can never observe a
//! half-applied command: applying an envelope replaces the affected part of
//! the snapshot in one step, and a read returns the complete snapshot that
//! some prefix of the applied commands produced.

use vstd::prelude::*;

use crate::codec::decode_command;
use crate::codec::encode_snapshot;
use crate::codec::spec_decode_command;
use crate::codec::spec_snapshot_bytes;
use crate::model::CommandEnvelope;
use crate::model::PoseSnapshot;

verus! {

/// The full effect of one command envelope on a snapshot: a pose command
/// replaces the body orientation and leaves all four legs unchanged.
pub open spec fn spec_apply(s: PoseSnapshot, c: CommandEnvelope) -> PoseSnapshot {
    match c {
        CommandEnvelope::Pose { body } => PoseSnapshot { body, ..s },
    }
}

/// The state after applying a whole sequence of commands in order.
pub open spec fn spec_apply_all(s: PoseSnapshot, cs: Seq<CommandEnvelope>) -> PoseSnapshot
    decreases cs.len(),
{
    if cs.len() == 0 {
        s
    } else {
        spec_apply(spec_apply_all(s, cs.drop_last()), cs.last())
    }
}

/// Applying a command is all-or-nothing: the resulting snapshot carries the
/// command's entire payload and every field the command does not speak of is
/// exactly the prior field. No mix of two commands is representable as an
/// outcome.
pub proof fn lemma_apply_no_partial(s: PoseSnapshot, c: CommandEnvelope)
    ensures
        spec_apply(s, c).body == (match c {
            CommandEnvelope::Pose { body } => body,
        }),
        spec_apply(s, c).front_left_leg == s.front_left_leg,
        spec_apply(s, c).front_right_leg == s.front_right_leg,
        spec_apply(s, c).back_left_leg == s.back_left_leg,
        spec_apply(s, c).back_right_leg == s.back_right_leg,
{
}

/// After any non-empty sequence of applied commands, the observable state is
/// the full post-state of one of those commands (the last), applied to the
/// state the earlier commands produced — never a blend of two commands.
pub proof fn lemma_observed_is_some_post_state(init: PoseSnapshot, cs: Seq<CommandEnvelope>)
    requires
        cs.len() > 0,
    ensures
        exists|k: int|
            0 <= k < cs.len() && spec_apply_all(init, cs) == spec_apply(
                spec_apply_all(init, cs.take(k)),
                cs[k],
            ),
{
    let k = cs.len() - 1;
    assert(cs.take(k) =~= cs.drop_last());
    assert(spec_apply_all(init, cs) == spec_apply(spec_apply_all(init, cs.take(k)), cs[k]));
}

/// Applying a representable command to a representable snapshot yields a
/// representable snapshot: the guarded state's invariant is preserved.
pub proof fn lemma_apply_preserves_wf(s: PoseSnapshot, c: CommandEnvelope)
    requires
        s.wf(),
        c.wf(),
    ensures
        spec_apply(s, c).wf(),
{
}

/// The single authoritative pose, accessed copy-in / copy-out. The device
/// process wraps one value of this type in its mutual-exclusion lock; every
/// operation here is a short, non-blocking critical section with no I/O.
pub struct GuardedState {
    current: PoseSnapshot,
}

impl GuardedState {
    /// The snapshot the state currently holds.
    pub closed spec fn view_spec(self) -> PoseSnapshot {
        self.current
    }

    pub open spec fn wf(self) -> bool {
        self.view_spec().wf()
    }

    /// At process start the device holds the zero pose.
    pub fn new() -> (s: GuardedState)
        ensures
            s.view_spec() == PoseSnapshot::zero_spec(),
            s.wf(),
    {
        GuardedState { current: PoseSnapshot::zero() }
    }

    /// A read copy for the streaming loop: exactly the current snapshot,
    /// whole, with the state unchanged.
    pub fn read(&self) -> (r: PoseSnapshot)
        ensures
            r == self.view_spec(),
    {
        self.current
    }

    /// Apply one command envelope atomically: the new state is the
    /// command's full post-state.
    pub fn apply(&mut self, c: &CommandEnvelope)
        requires
            old(self).wf(),
            c.wf(),
        ensures
            final(self).view_spec() == spec_apply(old(self).view_spec(), *c),
            final(self).wf(),
    {
        match c {
            CommandEnvelope::Pose { body } => {
                self.current = PoseSnapshot { body: *body, ..self.current };
            },
        }
    }

    /// The command endpoint's effect, given one request body. A body that
    /// decodes applies atomically and the request succeeds (`true`); any
    /// other body is rejected (`false`) and the state is untouched — no
    /// partial application is observable either way.
    pub fn handle_command_bytes(&mut self, body: &Vec<u8>) -> (accepted: bool)
        requires
            old(self).wf(),
        ensures
            match spec_decode_command(body@) {
                Some(c) => accepted && final(self).view_spec() == spec_apply(
                    old(self).view_spec(),
                    c,
                ),
                None => !accepted && *final(self) == *old(self),
            },
            final(self).wf(),
    {
        match decode_command(body) {
            Some(c) => {
                self.apply(&c);
                true
            },
            None => false,
        }
    }

    /// One tick of the streaming loop: the event payload for the snapshot
    /// the state holds right now.
    pub fn publish_tick(&self) -> (out: Vec<u8>)
        requires
            self.wf(),
        ensures
            out@ == spec_snapshot_bytes(self.view_spec()),
    {
        let snap = self.read();
        encode_snapshot(&snap)
    }
}

} // verus!
