//! The connection event queue: session ids reported by the transport's
//! availability callbacks, drained once per server tick.
use vstd::prelude::*;

verus! {

/// An ordered queue of session ids.  Callbacks append, in arrival order; the
/// tick loop drains everything seen so far before making any slot-state
/// decision with it.  The shell guards the queue with its own lock, since
/// callbacks run on the transport's threads.
pub struct EventQueue {
    pub items: Vec<i32>,
}

impl EventQueue {
    /// An empty queue.
    pub fn new() -> (q: Self)
        ensures
            q.items@ == Seq::<i32>::empty(),
    {
        EventQueue { items: Vec::new() }
    }

    /// Appends one session id, keeping arrival order.
    pub fn push(&mut self, session_id: i32)
        ensures
            final(self).items@ == old(self).items@.push(session_id),
    {
        self.items.push(session_id);
    }

    /// Hands back everything queued so far, in arrival order, leaving the
    /// queue empty.
    pub fn drain(&mut self) -> (r: Vec<i32>)
        ensures
            r@ == old(self).items@,
            final(self).items@.len() == 0,
    {
        let mut drained: Vec<i32> = Vec::new();
        core::mem::swap(&mut drained, &mut self.items);
        drained
    }
}

} // verus!
