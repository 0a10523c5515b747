//! One server-side client slot: a session bound to a dedicated channel pair,
//! with a polled lease that traffic refreshes.
use vstd::prelude::*;

use crate::Timeout;

verus! {

/// Lifecycle state of a slot: allocated and waiting for the remote's first
/// image, carrying traffic, or terminally closed.
#[derive(Clone, Copy, Debug, PartialEq, Eq, Structural)]
pub enum SlotState {
    Pending,
    Active,
    Closed,
}

/// A slot binding one logical client to a private channel pair.  The session
/// that requested the handshake is the slot's publisher session; the
/// subscriber session stays `-1` until a matching connection event arrives.
/// `deadline` is the instant, in seconds, at which the slot's lease runs
/// out; `closed` is terminal.
#[derive(Clone, Copy, Debug, PartialEq, Eq, Structural)]
pub struct ClientSlot {
    pub publisher_session_id: i32,
    pub subscriber_session_id: i32,
    pub port: usize,
    pub control: usize,
    pub deadline: u64,
    pub closed: bool,
}

impl ClientSlot {
    /// The slot's place in the lifecycle, read off its fields.
    pub open spec fn state(self) -> SlotState {
        if self.closed {
            SlotState::Closed
        } else if self.subscriber_session_id != -1 {
            SlotState::Active
        } else {
            SlotState::Pending
        }
    }

    /// A slot that has seen its matching connection event and is not closed.
    pub open spec fn is_active(self) -> bool {
        self.state() == SlotState::Active
    }

    /// A slot still waiting for its matching connection event.
    pub open spec fn is_pending(self) -> bool {
        self.state() == SlotState::Pending
    }

    /// A fresh `Pending` slot bound to the handshaking session, with the
    /// shorter connection lease: the remote must attach its subscriber
    /// before the lease runs out.
    pub fn new(publisher_session_id: i32, port: usize, control: usize, now: u64) -> (slot: Self)
        requires
            now + Timeout::CONNECTION_SECONDS <= u64::MAX,
        ensures
            slot.publisher_session_id == publisher_session_id,
            slot.subscriber_session_id == -1,
            slot.port == port,
            slot.control == control,
            slot.deadline == now + Timeout::CONNECTION_SECONDS,
            !slot.closed,
            slot.state() == SlotState::Pending,
    {
        ClientSlot {
            publisher_session_id,
            subscriber_session_id: -1,
            port,
            control,
            deadline: now + Timeout::CONNECTION_SECONDS,
            closed: false,
        }
    }

    /// Whether this slot is bound to `session_id` as its publisher session,
    /// i.e. whether the same remote is re-handshaking.
    pub fn is_publishing_on_session(&self, session_id: i32) -> (r: bool)
        ensures
            r == (self.publisher_session_id == session_id),
    {
        self.publisher_session_id == session_id
    }

    /// Whether this slot's subscriber session is `session_id`.  Meaningful
    /// only once the slot is `Active`; before that the field holds the `-1`
    /// sentinel.
    pub fn has_subscribers_on_session(&self, session_id: i32) -> (r: bool)
        ensures
            r == (self.subscriber_session_id == session_id),
    {
        self.subscriber_session_id == session_id
    }

    /// Whether a session's departure concerns this slot: it is the slot's
    /// publisher session, or the subscriber session of a slot that has
    /// actually activated.
    pub open spec fn owns_session(self, session_id: i32) -> bool {
        self.publisher_session_id == session_id || (self.subscriber_session_id != -1
            && self.subscriber_session_id == session_id)
    }

    /// Records the matching connection event: the slot becomes `Active` and
    /// its lease widens to the session window.
    pub fn activate(&mut self, session_id: i32, now: u64)
        requires
            !old(self).closed,
            now + Timeout::SESSION_SECONDS <= u64::MAX,
        ensures
            *final(self) == (ClientSlot {
                subscriber_session_id: session_id,
                deadline: (now + Timeout::SESSION_SECONDS) as u64,
                ..*old(self)
            }),
    {
        self.subscriber_session_id = session_id;
        self.deadline = now + Timeout::SESSION_SECONDS;
    }

    /// Whether the lease has run out: exactly at the deadline, not before.
    pub fn is_timeout_elapsed(&self, now: u64) -> (r: bool)
        ensures
            r == (self.deadline <= now),
    {
        self.deadline <= now
    }

    /// Records a successful outbound transfer on this slot: traffic always
    /// extends the lease to a full session window from now.
    pub fn publish(&mut self, now: u64)
        requires
            !old(self).closed,
            now + Timeout::SESSION_SECONDS <= u64::MAX,
        ensures
            *final(self) == (ClientSlot {
                deadline: (now + Timeout::SESSION_SECONDS) as u64,
                ..*old(self)
            }),
    {
        self.deadline = now + Timeout::SESSION_SECONDS;
    }

    /// Records a successful inbound transfer on this slot; like any traffic
    /// it extends the lease to a full session window from now.
    pub fn receive(&mut self, now: u64)
        requires
            !old(self).closed,
            now + Timeout::SESSION_SECONDS <= u64::MAX,
        ensures
            *final(self) == (ClientSlot {
                deadline: (now + Timeout::SESSION_SECONDS) as u64,
                ..*old(self)
            }),
    {
        self.deadline = now + Timeout::SESSION_SECONDS;
    }

    /// Closes the slot, terminally: no later call reopens it.
    pub fn close(&mut self)
        ensures
            *final(self) == (ClientSlot { closed: true, ..*old(self) }),
            final(self).state() == SlotState::Closed,
    {
        self.closed = true;
    }

    /// Whether the slot has been closed.
    pub fn is_closed(&self) -> (r: bool)
        ensures
            r == self.closed,
    {
        self.closed
    }
}

} // verus!
