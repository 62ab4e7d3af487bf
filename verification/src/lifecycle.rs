use vstd::prelude::*;

use crate::delivery::{delivery_for, plan_delivery, Delivery, Recipient};

verus! {

/// One of the two handles that share a `ThreadResult`.
#[derive(PartialEq, Eq, Structural, Clone, Copy, Debug)]
pub enum End {
    /// The handle that completes the result, from any thread.
    Sender,
    /// The handle that waits for the result in the hub.
    Receiver,
}

/// The other handle of the pair.
pub open spec fn other(end: End) -> End {
    match end {
        End::Sender => End::Receiver,
        End::Receiver => End::Sender,
    }
}

/// The shared state of a `ThreadResult` and its two handles: which handles
/// are still alive and whether the result was completed. The `ThreadResult`
/// is handed back to the hub for destruction when its last handle goes, and
/// only then.
pub struct Lifecycle {
    sender_open: bool,
    receiver_open: bool,
    completed: bool,
}

impl Lifecycle {
    /// Whether the handle `end` is still alive.
    pub closed spec fn alive(self, end: End) -> bool {
        match end {
            End::Sender => self.sender_open,
            End::Receiver => self.receiver_open,
        }
    }

    /// Whether the sender has completed the result.
    pub closed spec fn is_done(self) -> bool {
        self.completed
    }

    /// Whether the `ThreadResult` has been handed back for destruction: both
    /// handles are gone.
    pub open spec fn destroyed(self) -> bool {
        !self.alive(End::Sender) && !self.alive(End::Receiver)
    }

    /// `after` is `before` with the handle `end` gone, and `destroy` tells
    /// whether that made the `ThreadResult` due for destruction.
    pub open spec fn released(before: Lifecycle, end: End, after: Lifecycle, destroy: bool) -> bool {
        &&& !after.alive(end)
        &&& after.alive(other(end)) == before.alive(other(end))
        &&& after.is_done() == before.is_done()
        &&& destroy == !before.alive(other(end))
    }

    /// A fresh `ThreadResult`: both handles alive, nothing completed.
    pub fn new() -> (l: Self)
        ensures
            l.alive(End::Sender),
            l.alive(End::Receiver),
            !l.is_done(),
    {
        Lifecycle { sender_open: true, receiver_open: true, completed: false }
    }

    /// Whether the handle `end` is still alive.
    pub fn is_alive(&self, end: End) -> (b: bool)
        ensures
            b == self.alive(end),
    {
        match end {
            End::Sender => self.sender_open,
            End::Receiver => self.receiver_open,
        }
    }

    /// Whether the sender has completed the result.
    pub fn is_completed(&self) -> (b: bool)
        ensures
            b == self.is_done(),
    {
        self.completed
    }

    /// The sender completes the result with a value or an error; the answer is
    /// how the outcome goes to the `ThreadResult`. A result is completed once.
    pub fn complete(&mut self, succeeded: bool) -> (d: Delivery)
        requires
            old(self).alive(End::Sender),
            !old(self).is_done(),
        ensures
            final(self).is_done(),
            final(self).alive(End::Sender) == old(self).alive(End::Sender),
            final(self).alive(End::Receiver) == old(self).alive(End::Receiver),
            d == delivery_for(Recipient::ThreadResult, succeeded),
    {
        self.completed = true;
        plan_delivery(Recipient::ThreadResult, succeeded)
    }

    /// The handle `end` goes away; the answer tells whether it was the last
    /// one, so that the `ThreadResult` is now to be destroyed.
    pub fn release(&mut self, end: End) -> (destroy: bool)
        requires
            old(self).alive(end),
        ensures
            Self::released(*old(self), end, *final(self), destroy),
            !final(self).alive(end),
            final(self).alive(other(end)) == old(self).alive(other(end)),
            final(self).is_done() == old(self).is_done(),
            destroy == !old(self).alive(other(end)),
    {
        match end {
            End::Sender => {
                self.sender_open = false;
                !self.receiver_open
            },
            End::Receiver => {
                self.receiver_open = false;
                !self.sender_open
            },
        }
    }
}

/// Whatever order the two handles go in, the first release leaves the
/// `ThreadResult` alone and the second one destroys it: it is destroyed once,
/// and not while either handle is alive.
pub proof fn lemma_destroyed_once_after_both(
    start: Lifecycle,
    mid: Lifecycle,
    last: Lifecycle,
    first: End,
    second: End,
    destroy_first: bool,
    destroy_second: bool,
)
    requires
        start.alive(End::Sender),
        start.alive(End::Receiver),
        start.alive(first),
        Lifecycle::released(start, first, mid, destroy_first),
        mid.alive(second),
        Lifecycle::released(mid, second, last, destroy_second),
    ensures
        second == other(first),
        !destroy_first,
        !mid.destroyed(),
        destroy_second,
        last.destroyed(),
{
}

/// The receiver may go first: the sender then stays alive, and its own
/// release later is the one that destroys the `ThreadResult`.
pub proof fn lemma_receiver_first_keeps_sender(
    start: Lifecycle,
    mid: Lifecycle,
    last: Lifecycle,
    destroy_first: bool,
    destroy_second: bool,
)
    requires
        start.alive(End::Sender),
        start.alive(End::Receiver),
        !mid.alive(End::Receiver),
        mid.alive(End::Sender) == start.alive(End::Sender),
        destroy_first == !start.alive(End::Sender),
        !last.alive(End::Sender),
        last.alive(End::Receiver) == mid.alive(End::Receiver),
        destroy_second == !mid.alive(End::Receiver),
    ensures
        mid.alive(End::Sender),
        !destroy_first,
        !mid.destroyed(),
        destroy_second,
        last.destroyed(),
{
}

/// A handle that is gone never comes back, so no release can follow the one
/// that destroyed the `ThreadResult`.
pub proof fn lemma_no_release_after_destruction(before: Lifecycle, end: End, after: Lifecycle)
    requires
        Lifecycle::released(before, end, after, true),
    ensures
        after.destroyed(),
        !after.alive(End::Sender),
        !after.alive(End::Receiver),
{
    match end {
        End::Sender => {},
        End::Receiver => {},
    }
}

/// Releasing a handle keeps a completion that happened before it.
pub proof fn lemma_release_keeps_completion(before: Lifecycle, end: End, after: Lifecycle, destroy: bool)
    requires
        Lifecycle::released(before, end, after, destroy),
        before.is_done(),
    ensures
        after.is_done(),
{
}

} // verus!
