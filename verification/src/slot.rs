use vstd::prelude::*;

use crate::frame::Frame;

verus! {

/// Single-slot mailbox between the capture and processing loops: it holds
/// at most one pending frame, and publishing replaces whatever was held,
/// never queues.  The consumer therefore always sees the most recent
/// capture, at the price of skipped frames.
pub struct SharedFrameSlot {
    pub current: Option<Frame>,
}

/// The slot's contents after a publish: exactly the published frame,
/// whatever was held before.
pub open spec fn slot_after_publish(held: Option<Frame>, frame: Frame) -> Option<Frame> {
    Some(frame)
}

impl SharedFrameSlot {
    /// An empty slot.
    pub fn new() -> (s: SharedFrameSlot)
        ensures
            s.current is None,
    {
        SharedFrameSlot { current: None }
    }

    /// Publish a frame, overwriting any frame already held.
    pub fn publish(&mut self, frame: Frame)
        ensures
            final(self).current == slot_after_publish(old(self).current, frame),
    {
        self.current = Some(frame);
    }

    /// Atomically remove and return the held frame, if any.
    pub fn take_latest(&mut self) -> (r: Option<Frame>)
        ensures
            final(self).current is None,
            r == old(self).current,
    {
        self.current.take()
    }
}

/// Law: publishing `a` and then `b` leaves the slot holding exactly `b`;
/// as long as the two frames differ at all, what is taken next can never
/// be `a`.
pub proof fn lemma_publish_overwrites(held: Option<Frame>, a: Frame, b: Frame)
    ensures
        slot_after_publish(slot_after_publish(held, a), b) == Some(b),
        a.pixels@ != b.pixels@ ==> slot_after_publish(slot_after_publish(held, a), b) != Some(a),
{
}

/// Cooperative shutdown signal shared by the capture and processing
/// loops.  It only ever moves from clear to set: no method resets it for
/// the session.
pub struct CancellationFlag {
    pub cancelled: bool,
}

impl CancellationFlag {
    /// A fresh, unset flag.
    pub fn new() -> (f: CancellationFlag)
        ensures
            !f.cancelled,
    {
        CancellationFlag { cancelled: false }
    }

    /// Request shutdown of both loops.
    pub fn set(&mut self)
        ensures
            final(self).cancelled,
    {
        self.cancelled = true;
    }

    /// Whether shutdown was requested.
    pub fn is_cancelled(&self) -> (b: bool)
        ensures
            b == self.cancelled,
    {
        self.cancelled
    }
}

} // verus!
