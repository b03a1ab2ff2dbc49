//! Non-blocking hand-off queues between the two concurrency domains.
//!
//! Each queue is an unbounded first-in first-out channel: pushing never
//! blocks the producer, and popping never waits — an empty queue answers
//! immediately. One queue carries inbound pose snapshots from the stream
//! client to the frame bridge; the other carries outbound command envelopes
//! from the input reader to the network sender.

use tokio::sync::mpsc::UnboundedReceiver;
use tokio::sync::mpsc::UnboundedSender;
use tokio::sync::mpsc::unbounded_channel;
use vstd::prelude::*;

use crate::model::CommandEnvelope;
use crate::model::PoseSnapshot;

verus! {

/// The send half of tokio's unbounded mpsc channel, opaque to the verifier;
/// what the queues rely on of it is stated on their methods.
#[verifier::external_type_specification]
#[verifier::external_body]
#[verifier::reject_recursive_types(T)]
pub struct ExUnboundedSender<T>(UnboundedSender<T>);

/// The receive half of tokio's unbounded mpsc channel, opaque to the
/// verifier; what the queues rely on of it is stated on their methods.
#[verifier::external_type_specification]
#[verifier::external_body]
#[verifier::reject_recursive_types(T)]
pub struct ExUnboundedReceiver<T>(UnboundedReceiver<T>);

/// The inbound hand-off queue: pose snapshots decoded from the stream, in
/// delivery order. The queue owns both halves of its channel, so nothing
/// else can observe or disturb the items in flight.
pub struct SnapshotQueue {
    tx: UnboundedSender<PoseSnapshot>,
    rx: UnboundedReceiver<PoseSnapshot>,
}

/// The snapshots now pending in the queue, oldest first.
pub uninterp spec fn snapshot_queue_contents(q: SnapshotQueue) -> Seq<PoseSnapshot>;

impl SnapshotQueue {
    /// Relies on tokio's `mpsc::unbounded_channel`: a fresh channel holds no
    /// messages.
    #[verifier::external_body]
    fn new_channel() -> (q: SnapshotQueue)
        ensures
            snapshot_queue_contents(q) == Seq::<PoseSnapshot>::empty(),
    {
        let (tx, rx) = unbounded_channel();
        SnapshotQueue { tx, rx }
    }

    /// A fresh, empty queue.
    pub fn new() -> (q: SnapshotQueue)
        ensures
            snapshot_queue_contents(q) == Seq::<PoseSnapshot>::empty(),
    {
        SnapshotQueue::new_channel()
    }

    /// Relies on tokio's `UnboundedSender::send`: it completes immediately
    /// (an unbounded channel never makes a sender wait) and appends the
    /// message in send order. It could fail only if the receive half were
    /// closed or dropped, and this queue owns its receive half and never
    /// closes it.
    #[verifier::external_body]
    fn send_raw(&mut self, s: PoseSnapshot)
        ensures
            snapshot_queue_contents(*final(self)) == snapshot_queue_contents(*old(self)).push(s),
    {
        let _ = self.tx.send(s);
    }

    /// Hand one snapshot to the queue. The producer never waits, and the
    /// snapshot joins the end of the pending run.
    pub fn push(&mut self, s: PoseSnapshot)
        ensures
            snapshot_queue_contents(*final(self)) == snapshot_queue_contents(*old(self)).push(s),
    {
        self.send_raw(s);
    }

    /// Relies on tokio's `UnboundedReceiver::try_recv`: it returns the
    /// oldest pending message without waiting, and reports an empty channel
    /// (never spuriously) rather than suspending. Both halves live in this
    /// struct, so no other actor can add or remove messages.
    #[verifier::external_body]
    fn recv_raw(&mut self) -> (r: Option<PoseSnapshot>)
        ensures
            ({
                let pre = snapshot_queue_contents(*old(self));
                let post = snapshot_queue_contents(*final(self));
                match r {
                    Some(s) => pre.len() > 0 && s == pre[0] && post == pre.skip(1),
                    None => pre.len() == 0 && post == pre,
                }
            }),
    {
        self.rx.try_recv().ok()
    }

    /// Take the oldest pending snapshot, or nothing — immediately, never
    /// waiting — and only an empty queue yields nothing.
    pub fn try_pop(&mut self) -> (r: Option<PoseSnapshot>)
        ensures
            ({
                let pre = snapshot_queue_contents(*old(self));
                let post = snapshot_queue_contents(*final(self));
                match r {
                    Some(s) => pre.len() > 0 && s == pre[0] && post == pre.skip(1),
                    None => pre.len() == 0 && post == pre,
                }
            }),
    {
        self.recv_raw()
    }

    /// Drain everything that is pending, without waiting: exactly the queued
    /// snapshots come back, in the order they were pushed, none dropped and
    /// none duplicated, and the queue is left empty. On an empty queue this
    /// returns at once with nothing.
    pub fn drain(&mut self) -> (out: Vec<PoseSnapshot>)
        ensures
            out@ == snapshot_queue_contents(*old(self)),
            snapshot_queue_contents(*final(self)) == Seq::<PoseSnapshot>::empty(),
    {
        let ghost all = snapshot_queue_contents(*self);
        let mut out: Vec<PoseSnapshot> = Vec::new();
        let mut pending = true;
        while pending
            invariant
                out@ + snapshot_queue_contents(*self) == all,
                !pending ==> snapshot_queue_contents(*self).len() == 0,
            decreases snapshot_queue_contents(*self).len() + (if pending {
                1int
            } else {
                0int
            }),
        {
            let ghost pre = snapshot_queue_contents(*self);
            match self.try_pop() {
                Some(s) => {
                    out.push(s);
                    proof {
                        assert(out@ + snapshot_queue_contents(*self) =~= all);
                    }
                },
                None => {
                    pending = false;
                },
            }
        }
        proof {
            assert(out@ =~= all);
        }
        out
    }
}

/// The outbound hand-off queue: command envelopes on their way to the
/// network sender, in the order the input produced them. The sender task
/// drains it and posts each envelope in turn, so commands are never
/// reordered.
pub struct CommandQueue {
    tx: UnboundedSender<CommandEnvelope>,
    rx: UnboundedReceiver<CommandEnvelope>,
}

/// The command envelopes now pending in the queue, oldest first.
pub uninterp spec fn command_queue_contents(q: CommandQueue) -> Seq<CommandEnvelope>;

/// Every pending command envelope is representable. A fresh queue has this
/// trivially, pushing only representable envelopes keeps it, and popping
/// never breaks it.
pub open spec fn command_queue_wf(q: CommandQueue) -> bool {
    forall|k: int|
        0 <= k < command_queue_contents(q).len() ==> (#[trigger] command_queue_contents(
            q,
        )[k]).wf()
}

impl CommandQueue {
    /// Relies on tokio's `mpsc::unbounded_channel`: a fresh channel holds no
    /// messages.
    #[verifier::external_body]
    fn new_channel() -> (q: CommandQueue)
        ensures
            command_queue_contents(q) == Seq::<CommandEnvelope>::empty(),
    {
        let (tx, rx) = unbounded_channel();
        CommandQueue { tx, rx }
    }

    /// A fresh, empty queue.
    pub fn new() -> (q: CommandQueue)
        ensures
            command_queue_contents(q) == Seq::<CommandEnvelope>::empty(),
    {
        CommandQueue::new_channel()
    }

    /// Relies on tokio's `UnboundedSender::send`: it completes immediately
    /// and appends the message in send order; it could fail only if the
    /// receive half were closed or dropped, and this queue owns its receive
    /// half and never closes it.
    #[verifier::external_body]
    fn send_raw(&mut self, c: CommandEnvelope)
        ensures
            command_queue_contents(*final(self)) == command_queue_contents(*old(self)).push(c),
    {
        let _ = self.tx.send(c);
    }

    /// Hand one command envelope to the queue. The producer never waits, and
    /// the envelope joins the end of the pending run.
    pub fn push(&mut self, c: CommandEnvelope)
        ensures
            command_queue_contents(*final(self)) == command_queue_contents(*old(self)).push(c),
    {
        self.send_raw(c);
    }

    /// Relies on tokio's `UnboundedReceiver::try_recv`: it returns the
    /// oldest pending message without waiting, and reports an empty channel
    /// (never spuriously) rather than suspending. Both halves live in this
    /// struct, so no other actor can add or remove messages.
    #[verifier::external_body]
    fn recv_raw(&mut self) -> (r: Option<CommandEnvelope>)
        ensures
            ({
                let pre = command_queue_contents(*old(self));
                let post = command_queue_contents(*final(self));
                match r {
                    Some(c) => pre.len() > 0 && c == pre[0] && post == pre.skip(1),
                    None => pre.len() == 0 && post == pre,
                }
            }),
    {
        self.rx.try_recv().ok()
    }

    /// Take the oldest pending command envelope, or nothing — immediately,
    /// never waiting — and only an empty queue yields nothing.
    pub fn try_pop(&mut self) -> (r: Option<CommandEnvelope>)
        ensures
            ({
                let pre = command_queue_contents(*old(self));
                let post = command_queue_contents(*final(self));
                match r {
                    Some(c) => pre.len() > 0 && c == pre[0] && post == pre.skip(1),
                    None => pre.len() == 0 && post == pre,
                }
            }),
    {
        self.recv_raw()
    }

    /// Drain every pending command, without waiting: exactly the queued
    /// envelopes, in push order, and the queue is left empty.
    pub fn drain(&mut self) -> (out: Vec<CommandEnvelope>)
        ensures
            out@ == command_queue_contents(*old(self)),
            command_queue_contents(*final(self)) == Seq::<CommandEnvelope>::empty(),
    {
        let ghost all = command_queue_contents(*self);
        let mut out: Vec<CommandEnvelope> = Vec::new();
        let mut pending = true;
        while pending
            invariant
                out@ + command_queue_contents(*self) == all,
                !pending ==> command_queue_contents(*self).len() == 0,
            decreases command_queue_contents(*self).len() + (if pending {
                1int
            } else {
                0int
            }),
        {
            match self.try_pop() {
                Some(c) => {
                    out.push(c);
                    proof {
                        assert(out@ + command_queue_contents(*self) =~= all);
                    }
                },
                None => {
                    pending = false;
                },
            }
        }
        proof {
            assert(out@ =~= all);
        }
        out
    }
}

} // verus!
