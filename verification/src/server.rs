//! The server side: the fixed-capacity slot pool, the handshake
//! orchestrator, and the per-tick passes that drive slot activation,
//! closure and reclamation.
use vstd::pervasive::VecAdditionalExecFns;
use vstd::prelude::*;

use crate::client_slot::ClientSlot;
use crate::messages::{
    compute_verification, verification_of, Failure, FailureDetails, HandshakeResponse,
};
use crate::{Arguments, Settings, Timeout};

verus! {

/// The slot as it stands after its matching connection event: the
/// subscriber session recorded, and the lease widened to a session window
/// from `now`.
pub open spec fn activated_slot(s: ClientSlot, now: u64) -> ClientSlot {
    ClientSlot {
        subscriber_session_id: s.publisher_session_id,
        deadline: (now + Timeout::SESSION_SECONDS) as u64,
        ..s
    }
}

/// A slot is concerned by one of the drained disconnection events.
pub open spec fn hit_by_disconnect(s: ClientSlot, disconnected: Seq<i32>) -> bool {
    exists|k: int| 0 <= k < disconnected.len() && s.owns_session(#[trigger] disconnected[k])
}

/// Appending one event concerns a slot exactly when the event itself, or
/// one of the earlier events, concerns it.
proof fn lemma_hit_by_disconnect_push(s: ClientSlot, d: Seq<i32>, event: i32)
    ensures
        hit_by_disconnect(s, d.push(event)) <==> (hit_by_disconnect(s, d) || s.owns_session(
            event,
        )),
{
    let d1 = d.push(event);
    if hit_by_disconnect(s, d1) {
        let w = choose|w: int| 0 <= w < d1.len() && s.owns_session(#[trigger] d1[w]);
        if w < d.len() {
            assert(d1[w] == d[w]);
            assert(hit_by_disconnect(s, d));
        } else {
            assert(d1[w] == event);
        }
    }
    if hit_by_disconnect(s, d) {
        let w = choose|w: int| 0 <= w < d.len() && s.owns_session(#[trigger] d[w]);
        assert(d1[w] == d[w]);
        assert(hit_by_disconnect(s, d1));
    }
    if s.owns_session(event) {
        assert(d1[d.len() as int] == event);
        assert(hit_by_disconnect(s, d1));
    }
}

/// Well-formedness survives any per-slot change that keeps each held slot's
/// binding: its publisher session, its addressing, and its openness.
proof fn lemma_wf_preserved(prev: SlotPool, new: SlotPool)
    requires
        prev.wf(),
        new.base_port == prev.base_port,
        new.base_control == prev.base_control,
        new.slots@.len() == prev.slots@.len(),
        forall|i: int|
            #[trigger] new.occupied(i) ==> prev.occupied(i) && new.slot_at(
                i,
            ).publisher_session_id == prev.slot_at(i).publisher_session_id && new.slot_at(i).port
                == prev.slot_at(i).port && new.slot_at(i).control == prev.slot_at(i).control
                && new.slot_at(i).closed == prev.slot_at(i).closed,
    ensures
        new.wf(),
{
    assert forall|i: int| #[trigger] new.occupied(i) implies !new.slot_at(i).closed && new.slot_at(
        i,
    ).port == new.port_of(i) && new.slot_at(i).control == new.control_of(i) by {
        assert(prev.occupied(i));
    }
    assert forall|i: int, j: int|
        #![trigger new.occupied(i), new.occupied(j)]
        new.occupied(i) && new.occupied(j) && i != j implies new.slot_at(i).publisher_session_id
        != new.slot_at(j).publisher_session_id by {
        assert(prev.occupied(i) && prev.occupied(j));
    }
}

/// The ordered table of client slots.  An index is stable for a slot's
/// lifetime and determines its channel addressing: slot `i` is assigned
/// `base_port + i + 1` and `base_control + i + 1`.
pub struct SlotPool {
    pub slots: Vec<Option<ClientSlot>>,
    pub base_port: usize,
    pub base_control: usize,
}

impl SlotPool {
    /// Index `index` holds a slot.
    pub open spec fn occupied(self, index: int) -> bool {
        0 <= index < self.slots@.len() && self.slots@[index] is Some
    }

    /// The slot at an occupied index.
    pub open spec fn slot_at(self, index: int) -> ClientSlot {
        self.slots@[index]->Some_0
    }

    /// The data-plane port assigned to index `index`.
    pub open spec fn port_of(self, index: int) -> int {
        self.base_port + index + 1
    }

    /// The control port assigned to index `index`.
    pub open spec fn control_of(self, index: int) -> int {
        self.base_control + index + 1
    }

    /// Well-formedness: port arithmetic cannot overflow, every held slot is
    /// open and carries the addressing its index determines, and no two
    /// held slots are bound to the same publisher session.
    pub open spec fn wf(self) -> bool {
        &&& self.base_port + self.slots@.len() <= usize::MAX
        &&& self.base_control + self.slots@.len() <= usize::MAX
        &&& forall|i: int|
            #[trigger] self.occupied(i) ==> !self.slot_at(i).closed && self.slot_at(i).port
                == self.port_of(i) && self.slot_at(i).control == self.control_of(i)
        &&& forall|i: int, j: int|
            #![trigger self.occupied(i), self.occupied(j)]
            self.occupied(i) && self.occupied(j) && i != j ==> self.slot_at(
                i,
            ).publisher_session_id != self.slot_at(j).publisher_session_id
    }

    /// Some held slot is bound to this publisher session.
    pub open spec fn has_session(self, session_id: i32) -> bool {
        exists|i: int| #[trigger]
            self.occupied(i) && self.slot_at(i).publisher_session_id == session_id
    }

    /// The index bound to this publisher session; well-formedness makes it
    /// unique.
    pub open spec fn session_index(self, session_id: i32) -> int {
        choose|i: int| #[trigger]
            self.occupied(i) && self.slot_at(i).publisher_session_id == session_id
    }

    /// Some index is free.
    pub open spec fn has_free(self) -> bool {
        exists|i: int| 0 <= i < self.slots@.len() && self.slots@[i] is None
    }

    /// The lowest free index: every index below it is occupied.
    pub open spec fn first_free(self) -> int {
        choose|i: int|
            0 <= i < self.slots@.len() && self.slots@[i] is None && (forall|j: int|
                0 <= j < i ==> #[trigger] self.slots@[j] is Some)
    }

    /// An empty pool of the given capacity.
    pub fn new(max_clients: usize, base_port: usize, base_control: usize) -> (pool: Self)
        requires
            base_port + max_clients <= usize::MAX,
            base_control + max_clients <= usize::MAX,
        ensures
            pool.wf(),
            pool.slots@.len() == max_clients,
            forall|i: int| 0 <= i < max_clients ==> pool.slots@[i] is None,
            pool.base_port == base_port,
            pool.base_control == base_control,
    {
        let mut slots: Vec<Option<ClientSlot>> = Vec::new();
        let mut i: usize = 0;
        while i < max_clients
            invariant
                i <= max_clients,
                slots@.len() == i,
                forall|k: int| 0 <= k < i ==> slots@[k] is None,
            decreases max_clients - i,
        {
            slots.push(None);
            i = i + 1;
        }
        SlotPool { slots, base_port, base_control }
    }

    /// The slot already bound to this publisher session, if the same remote
    /// is re-handshaking.
    pub fn find_slot_for_session(&self, session_id: i32) -> (r: Option<usize>)
        ensures
            match r {
                Some(i) => self.occupied(i as int) && self.slot_at(i as int).publisher_session_id
                    == session_id,
                None => !self.has_session(session_id),
            },
    {
        let n = self.slots.len();
        let mut i: usize = 0;
        while i < n
            invariant
                i <= n,
                n == self.slots@.len(),
                forall|k: int|
                    0 <= k < i ==> !(#[trigger] self.occupied(k) && self.slot_at(
                        k,
                    ).publisher_session_id == session_id),
            decreases n - i,
        {
            match &self.slots[i] {
                Some(slot) => {
                    if slot.is_publishing_on_session(session_id) {
                        return Some(i);
                    }
                },
                None => {},
            }
            i = i + 1;
        }
        None
    }

    /// The lowest free index, if any.
    pub fn find_free_slot(&self) -> (r: Option<usize>)
        ensures
            match r {
                Some(i) => i < self.slots@.len() && self.slots@[i as int] is None && (forall|j: int|
                    0 <= j < i ==> #[trigger] self.slots@[j] is Some),
                None => !self.has_free(),
            },
    {
        let n = self.slots.len();
        let mut i: usize = 0;
        while i < n
            invariant
                i <= n,
                n == self.slots@.len(),
                forall|k: int| 0 <= k < i ==> #[trigger] self.slots@[k] is Some,
            decreases n - i,
        {
            match &self.slots[i] {
                Some(_) => {},
                None => {
                    return Some(i);
                },
            }
            i = i + 1;
        }
        None
    }

    /// Binds a free index to a session: a fresh `Pending` slot, addressed by
    /// its index, holding the shorter connection lease.  The shell opens the
    /// slot's channel pair right after; if that fails it reclaims the index
    /// at once.
    pub fn allocate(&mut self, index: usize, session_id: i32, now: u64)
        requires
            old(self).wf(),
            index < old(self).slots@.len(),
            old(self).slots@[index as int] is None,
            !old(self).has_session(session_id),
            now + Timeout::CONNECTION_SECONDS <= u64::MAX,
        ensures
            final(self).wf(),
            final(self).base_port == old(self).base_port,
            final(self).base_control == old(self).base_control,
            final(self).slots@ =~= old(self).slots@.update(
                index as int,
                Some(
                    (ClientSlot {
                        publisher_session_id: session_id,
                        subscriber_session_id: -1i32,
                        port: (old(self).base_port + index + 1) as usize,
                        control: (old(self).base_control + index + 1) as usize,
                        deadline: (now + Timeout::CONNECTION_SECONDS) as u64,
                        closed: false,
                    }),
                ),
            ),
    {
        let port = self.base_port + index + 1;
        let control = self.base_control + index + 1;
        let slot = ClientSlot::new(session_id, port, control, now);
        self.slots.set(index, Some(slot));
        proof {
            let new = *self;
            let prev = *old(self);
            assert forall|i: int|
                #[trigger] new.occupied(i) implies !new.slot_at(i).closed && new.slot_at(i).port
                == new.port_of(i) && new.slot_at(i).control == new.control_of(i) by {
                if i != index {
                    assert(prev.occupied(i));
                }
            }
            assert forall|i: int, j: int|
                #![trigger new.occupied(i), new.occupied(j)]
                new.occupied(i) && new.occupied(j) && i != j implies new.slot_at(
                i,
            ).publisher_session_id != new.slot_at(j).publisher_session_id by {
                if i != index && j != index {
                    assert(prev.occupied(i) && prev.occupied(j));
                } else if i == index {
                    assert(prev.occupied(j));
                    assert(new.slot_at(j).publisher_session_id != session_id);
                } else {
                    assert(prev.occupied(i));
                    assert(new.slot_at(i).publisher_session_id != session_id);
                }
            }
        }
    }

    /// Answers a handshake request that was resolved to `index` by the
    /// allocation precedence rules.  If the index is already bound to the
    /// requesting session, the same slot is answered again; if it is bound
    /// to a different session, the request is refused and the held slot left
    /// untouched; if it is free, a fresh `Pending` slot is bound to the
    /// session.  Every reply carries the verification value for this
    /// request.
    pub fn handshake(&mut self, session_id: i32, key: i32, index: usize, now: u64) -> (r: Result<
        HandshakeResponse,
        Failure,
    >)
        requires
            old(self).wf(),
            index < old(self).slots@.len(),
            old(self).slots@[index as int] is None ==> !old(self).has_session(session_id),
            now + Timeout::CONNECTION_SECONDS <= u64::MAX,
        ensures
            final(self).wf(),
            final(self).base_port == old(self).base_port,
            final(self).base_control == old(self).base_control,
            final(self).slots@.len() == old(self).slots@.len(),
            (old(self).occupied(index as int) && old(self).slot_at(index as int).publisher_session_id
                == session_id) ==> (final(self).slots@ == old(self).slots@ && r == Ok::<
                HandshakeResponse,
                Failure,
            >(
                (HandshakeResponse {
                    port: (old(self).base_port + index + 1) as usize,
                    control: (old(self).base_control + index + 1) as usize,
                    verification: verification_of(session_id, key),
                }),
            )),
            (old(self).occupied(index as int) && old(self).slot_at(index as int).publisher_session_id
                != session_id) ==> (final(self).slots@ == old(self).slots@ && r == Err::<
                HandshakeResponse,
                Failure,
            >(
                Failure::HandshakeFailedTooManyConnections(
                    (FailureDetails { session_id: verification_of(session_id, key) }),
                ),
            )),
            (old(self).slots@[index as int] is None) ==> (final(self).slots@ =~= old(
                self,
            ).slots@.update(
                index as int,
                Some(
                    (ClientSlot {
                        publisher_session_id: session_id,
                        subscriber_session_id: -1i32,
                        port: (old(self).base_port + index + 1) as usize,
                        control: (old(self).base_control + index + 1) as usize,
                        deadline: (now + Timeout::CONNECTION_SECONDS) as u64,
                        closed: false,
                    }),
                ),
            ) && r == Ok::<HandshakeResponse, Failure>(
                (HandshakeResponse {
                    port: (old(self).base_port + index + 1) as usize,
                    control: (old(self).base_control + index + 1) as usize,
                    verification: verification_of(session_id, key),
                }),
            )),
    {
        let port = self.base_port + index + 1;
        let control = self.base_control + index + 1;
        let verification = compute_verification(session_id, key);
        let existing: Option<i32> = match &self.slots[index] {
            Some(slot) => Some(slot.publisher_session_id),
            None => None,
        };
        match existing {
            Some(bound_session) => {
                if bound_session == session_id {
                    Ok(HandshakeResponse { port, control, verification })
                } else {
                    Err(
                        Failure::HandshakeFailedTooManyConnections(
                            FailureDetails { session_id: verification },
                        ),
                    )
                }
            },
            None => {
                self.allocate(index, session_id, now);
                Ok(HandshakeResponse { port, control, verification })
            },
        }
    }

    /// Handles one inbound handshake request, resolving the target index by
    /// the allocation precedence rules: first the slot already bound to this
    /// session, else the lowest free index, else the request is refused with
    /// a server-full failure.  A repeated request from an already-accepted
    /// session is answered with the same slot, never a second one.
    pub fn on_handshake_request(&mut self, session_id: i32, key: i32, now: u64) -> (r: Result<
        HandshakeResponse,
        Failure,
    >)
        requires
            old(self).wf(),
            now + Timeout::CONNECTION_SECONDS <= u64::MAX,
        ensures
            final(self).wf(),
            final(self).base_port == old(self).base_port,
            final(self).base_control == old(self).base_control,
            final(self).slots@.len() == old(self).slots@.len(),
            old(self).has_session(session_id) ==> (final(self).slots@ == old(self).slots@ && r
                == Ok::<HandshakeResponse, Failure>(
                (HandshakeResponse {
                    port: (old(self).base_port + old(self).session_index(session_id) + 1) as usize,
                    control: (old(self).base_control + old(self).session_index(session_id)
                        + 1) as usize,
                    verification: verification_of(session_id, key),
                }),
            )),
            (!old(self).has_session(session_id) && old(self).has_free()) ==> (final(self).slots@
                =~= old(self).slots@.update(
                old(self).first_free(),
                Some(
                    (ClientSlot {
                        publisher_session_id: session_id,
                        subscriber_session_id: -1i32,
                        port: (old(self).base_port + old(self).first_free() + 1) as usize,
                        control: (old(self).base_control + old(self).first_free() + 1) as usize,
                        deadline: (now + Timeout::CONNECTION_SECONDS) as u64,
                        closed: false,
                    }),
                ),
            ) && r == Ok::<HandshakeResponse, Failure>(
                (HandshakeResponse {
                    port: (old(self).base_port + old(self).first_free() + 1) as usize,
                    control: (old(self).base_control + old(self).first_free() + 1) as usize,
                    verification: verification_of(session_id, key),
                }),
            )),
            (!old(self).has_session(session_id) && !old(self).has_free()) ==> (final(self).slots@
                == old(self).slots@ && r == Err::<HandshakeResponse, Failure>(
                Failure::HandshakeFailedServerFull(
                    (FailureDetails { session_id: verification_of(session_id, key) }),
                ),
            )),
    {
        match self.find_slot_for_session(session_id) {
            Some(index) => {
                proof {
                    assert(self.occupied(index as int) && self.slot_at(
                        index as int,
                    ).publisher_session_id == session_id);
                    assert(self.has_session(session_id));
                    let c = self.session_index(session_id);
                    assert(self.occupied(c) && self.slot_at(c).publisher_session_id == session_id);
                    assert(c == index as int);
                }
                self.handshake(session_id, key, index, now)
            },
            None => {
                match self.find_free_slot() {
                    Some(index) => {
                        proof {
                            assert((index as int) < self.slots@.len() && self.slots@[index as int]
                                is None && (forall|j: int|
                                0 <= j < index as int ==> #[trigger] self.slots@[j] is Some));
                            assert(self.has_free());
                            let c = self.first_free();
                            assert(0 <= c < self.slots@.len() && self.slots@[c] is None && (
                            forall|j: int| 0 <= j < c ==> #[trigger] self.slots@[j] is Some));
                            assert(c == index as int);
                        }
                        self.handshake(session_id, key, index, now)
                    },
                    None => {
                        Err(
                            Failure::HandshakeFailedServerFull(
                                FailureDetails { session_id: compute_verification(session_id, key) },
                            ),
                        )
                    },
                }
            },
        }
    }

    /// Drains the connected-session events of one tick: each event that
    /// matches a held slot's publisher session activates that slot, which
    /// records the subscriber session and widens the lease to a session
    /// window.  Events matching no slot are dropped.
    pub fn handle_connections(&mut self, connected: &Vec<i32>, now: u64)
        requires
            old(self).wf(),
            now + Timeout::SESSION_SECONDS <= u64::MAX,
        ensures
            final(self).wf(),
            final(self).base_port == old(self).base_port,
            final(self).base_control == old(self).base_control,
            final(self).slots@.len() == old(self).slots@.len(),
            forall|i: int|
                0 <= i < old(self).slots@.len() ==> final(self).slots@[i] == (if old(
                    self,
                ).slots@[i] is Some && connected@.contains(
                    old(self).slots@[i]->Some_0.publisher_session_id,
                ) {
                    Some(activated_slot(old(self).slots@[i]->Some_0, now))
                } else {
                    old(self).slots@[i]
                }),
    {
        broadcast use vstd::seq_lib::lemma_seq_contains_after_push;

        let ghost prev = *self;
        let n = connected.len();
        let mut e: usize = 0;
        while e < n
            invariant
                self.wf(),
                n == connected@.len(),
                e <= n,
                self.base_port == prev.base_port,
                self.base_control == prev.base_control,
                self.slots@.len() == prev.slots@.len(),
                prev.wf(),
                now + Timeout::SESSION_SECONDS <= u64::MAX,
                forall|i: int|
                    0 <= i < prev.slots@.len() ==> self.slots@[i] == (if prev.slots@[i] is Some
                        && connected@.take(e as int).contains(
                        prev.slots@[i]->Some_0.publisher_session_id,
                    ) {
                        Some(activated_slot(prev.slots@[i]->Some_0, now))
                    } else {
                        prev.slots@[i]
                    }),
            decreases n - e,
        {
            let ghost before = *self;
            let event = connected[e];
            let found = self.find_slot_for_session(event);
            match found {
                Some(index) => {
                    let mut slot = self.slots[index].unwrap();
                    slot.activate(event, now);
                    self.slots.set(index, Some(slot));
                    proof {
                        lemma_wf_preserved(before, *self);
                    }
                },
                None => {},
            }
            proof {
                assert(connected@.take(e as int + 1) =~= connected@.take(e as int).push(
                    connected@[e as int],
                ));
                let taken = connected@.take(e as int);
                let taken1 = connected@.take(e as int + 1);
                assert forall|i: int| 0 <= i < prev.slots@.len() implies self.slots@[i] == (if prev
                    .slots@[i] is Some && taken1.contains(prev.slots@[i]->Some_0.publisher_session_id) {
                    Some(activated_slot(prev.slots@[i]->Some_0, now))
                } else {
                    prev.slots@[i]
                }) by {
                    broadcast use vstd::seq_lib::lemma_seq_contains_after_push;

                    assert(taken1 =~= taken.push(event));
                    if prev.slots@[i] is Some {
                        let s = prev.slots@[i]->Some_0;
                        if s.publisher_session_id == event {
                            // the invariant makes index `i` hold `s` or its
                            // activated form, so `i` publishes on `event`,
                            // and by uniqueness the scan found exactly `i`
                            assert(before.occupied(i));
                            assert(before.slot_at(i).publisher_session_id == event);
                            match found {
                                Some(index) => {
                                    assert(before.occupied(index as int) && before.slot_at(
                                        index as int,
                                    ).publisher_session_id == event);
                                    assert(i == index as int);
                                    assert(taken1.contains(event));
                                    assert(self.slots@[i] == Some(
                                        activated_slot(s, now),
                                    ));
                                },
                                None => {
                                    assert(before.has_session(event));
                                    assert(false);
                                },
                            }
                        } else {
                            // untouched this round: only the found index, a
                            // publisher of `event`, was rewritten
                            match found {
                                Some(index) => {
                                    if i == index as int {
                                        assert(before.slot_at(i).publisher_session_id
                                            == s.publisher_session_id);
                                        assert(false);
                                    }
                                },
                                None => {},
                            }
                            assert(self.slots@[i] == before.slots@[i]);
                            assert(taken1.contains(s.publisher_session_id) == taken.contains(
                                s.publisher_session_id,
                            ));
                        }
                    } else {
                        match found {
                            Some(index) => {
                                if i == index as int {
                                    assert(before.occupied(i));
                                    assert(false);
                                }
                            },
                            None => {},
                        }
                        assert(self.slots@[i] == before.slots@[i]);
                    }
                }
            }
            e = e + 1;
        }
        proof {
            assert(connected@.take(n as int) =~= connected@);
        }
    }

    /// Drains the disconnected-session events of one tick and runs the
    /// timeout pass: every held slot owning a departed session, and every
    /// held slot whose lease has run out, is reclaimed.  An index whose
    /// lease runs out is free again afterwards.
    pub fn handle_disconnections(&mut self, disconnected: &Vec<i32>, now: u64)
        requires
            old(self).wf(),
        ensures
            final(self).wf(),
            final(self).base_port == old(self).base_port,
            final(self).base_control == old(self).base_control,
            final(self).slots@.len() == old(self).slots@.len(),
            forall|i: int|
                0 <= i < old(self).slots@.len() ==> final(self).slots@[i] == (if old(
                    self,
                ).slots@[i] is Some && (hit_by_disconnect(old(self).slots@[i]->Some_0, disconnected@)
                    || old(self).slots@[i]->Some_0.deadline <= now) {
                    None
                } else {
                    old(self).slots@[i]
                }),
    {
        let ghost prev = *self;
        let n = disconnected.len();
        let mut e: usize = 0;
        while e < n
            invariant
                self.wf(),
                n == disconnected@.len(),
                e <= n,
                self.base_port == prev.base_port,
                self.base_control == prev.base_control,
                self.slots@.len() == prev.slots@.len(),
                forall|i: int|
                    0 <= i < prev.slots@.len() ==> self.slots@[i] == (if prev.slots@[i] is Some
                        && hit_by_disconnect(prev.slots@[i]->Some_0, disconnected@.take(e as int)) {
                        None
                    } else {
                        prev.slots@[i]
                    }),
            decreases n - e,
        {
            let ghost before = *self;
            let event = disconnected[e];
            let len = self.slots.len();
            let mut i: usize = 0;
            while i < len
                invariant
                    self.wf(),
                    len == self.slots@.len(),
                    i <= len,
                    self.base_port == before.base_port,
                    self.base_control == before.base_control,
                    self.slots@.len() == before.slots@.len(),
                    forall|k: int|
                        0 <= k < before.slots@.len() ==> self.slots@[k] == (if before.slots@[k]
                            is Some && k < i && before.slots@[k]->Some_0.owns_session(event) {
                            None
                        } else {
                            before.slots@[k]
                        }),
                decreases len - i,
            {
                let ghost step = *self;
                let entry: Option<ClientSlot> = self.slots[i];
                let owns = match &entry {
                    Some(slot) => {
                        !slot.is_closed() && (slot.is_publishing_on_session(event) || (
                        slot.subscriber_session_id != -1 && slot.has_subscribers_on_session(
                            event,
                        )))
                    },
                    None => false,
                };
                proof {
                    if entry is Some {
                        assert(step.occupied(i as int));
                        assert(!entry->Some_0.closed);
                        assert(owns == entry->Some_0.owns_session(event));
                    }
                }
                if owns {
                    self.slots.set(i, None);
                    proof {
                        lemma_wf_preserved(step, *self);
                    }
                }
                i = i + 1;
            }
            proof {
                let taken = disconnected@.take(e as int);
                let taken1 = disconnected@.take(e as int + 1);
                assert(taken1 =~= taken.push(event));
                assert forall|k: int| 0 <= k < prev.slots@.len() implies self.slots@[k] == (if prev
                    .slots@[k] is Some && hit_by_disconnect(prev.slots@[k]->Some_0, taken1) {
                    None
                } else {
                    prev.slots@[k]
                }) by {
                    if prev.slots@[k] is Some {
                        let s = prev.slots@[k]->Some_0;
                        lemma_hit_by_disconnect_push(s, taken, event);
                        assert(hit_by_disconnect(s, taken1) == (hit_by_disconnect(s, taken)
                            || s.owns_session(event)));
                    }
                }
            }
            e = e + 1;
        }
        proof {
            assert(disconnected@.take(n as int) =~= disconnected@);
        }
        self.reclaim_timed_out(now);
        proof {
            assert forall|i: int| 0 <= i < prev.slots@.len() implies self.slots@[i] == (if prev
                .slots@[i] is Some && (hit_by_disconnect(prev.slots@[i]->Some_0, disconnected@)
                || prev.slots@[i]->Some_0.deadline <= now) {
                None
            } else {
                prev.slots@[i]
            }) by {}
        }
    }

    /// The timeout pass: reclaims every held slot whose lease has run out,
    /// exactly at its deadline, not before.  Each such index is free — and
    /// so allocatable — again afterwards.
    pub fn reclaim_timed_out(&mut self, now: u64)
        requires
            old(self).wf(),
        ensures
            final(self).wf(),
            final(self).base_port == old(self).base_port,
            final(self).base_control == old(self).base_control,
            final(self).slots@.len() == old(self).slots@.len(),
            forall|i: int|
                0 <= i < old(self).slots@.len() ==> final(self).slots@[i] == (if old(
                    self,
                ).slots@[i] is Some && old(self).slots@[i]->Some_0.deadline <= now {
                    None
                } else {
                    old(self).slots@[i]
                }),
            forall|i: int|
                #[trigger] old(self).occupied(i) && old(self).slot_at(i).deadline <= now
                    ==> final(self).slots@[i] is None,
            (exists|i: int| #[trigger] old(self).occupied(i) && old(self).slot_at(i).deadline <= now)
                ==> final(self).has_free(),
    {
        let ghost prev = *self;
        let len = self.slots.len();
        let mut i: usize = 0;
        while i < len
            invariant
                self.wf(),
                len == self.slots@.len(),
                i <= len,
                self.base_port == prev.base_port,
                self.base_control == prev.base_control,
                self.slots@.len() == prev.slots@.len(),
                forall|k: int|
                    0 <= k < prev.slots@.len() ==> self.slots@[k] == (if prev.slots@[k] is Some && k
                        < i && prev.slots@[k]->Some_0.deadline <= now {
                        None
                    } else {
                        prev.slots@[k]
                    }),
            decreases len - i,
        {
            let ghost step = *self;
            let elapsed = match &self.slots[i] {
                Some(slot) => slot.is_timeout_elapsed(now),
                None => false,
            };
            if elapsed {
                self.slots.set(i, None);
                proof {
                    lemma_wf_preserved(step, *self);
                }
            }
            i = i + 1;
        }
        proof {
            if exists|k: int| #[trigger] prev.occupied(k) && prev.slot_at(k).deadline <= now {
                let w = choose|k: int| #[trigger] prev.occupied(k) && prev.slot_at(k).deadline
                    <= now;
                assert(0 <= w < self.slots@.len() && self.slots@[w] is None);
                assert(self.has_free());
            }
        }
    }

    /// The indices holding a slot, in ascending order: the targets for
    /// broadcasting a packet read from the local socket.
    pub fn live_slot_indices(&self) -> (r: Vec<usize>)
        ensures
            forall|k: int| 0 <= k < r@.len() ==> self.occupied(#[trigger] r@[k] as int),
            forall|i: int| #[trigger] self.occupied(i) ==> r@.contains(i as usize),
            forall|k1: int, k2: int| 0 <= k1 < k2 < r@.len() ==> r@[k1] < r@[k2],
    {
        broadcast use vstd::seq_lib::lemma_seq_contains_after_push;

        let mut out: Vec<usize> = Vec::new();
        let n = self.slots.len();
        let mut i: usize = 0;
        while i < n
            invariant
                i <= n,
                n == self.slots@.len(),
                forall|k: int|
                    0 <= k < out@.len() ==> self.occupied(#[trigger] out@[k] as int) && out@[k] < i,
                forall|j: int| 0 <= j < i && #[trigger] self.occupied(j) ==> out@.contains(
                    j as usize,
                ),
                forall|k1: int, k2: int| 0 <= k1 < k2 < out@.len() ==> out@[k1] < out@[k2],
            decreases n - i,
        {
            match &self.slots[i] {
                Some(_) => {
                    let ghost old_out = out@;
                    out.push(i);
                    proof {
                        assert forall|j: int|
                            0 <= j < i + 1 && #[trigger] self.occupied(j) implies out@.contains(
                            j as usize,
                        ) by {
                            vstd::seq_lib::lemma_seq_contains_after_push(old_out, i, j as usize);
                        }
                    }
                },
                None => {},
            }
            i = i + 1;
        }
        out
    }

    /// The indices a fragment arriving from `source_session` is relayed to:
    /// every `Active` slot not already carrying that session as its source,
    /// so traffic is never echoed back to its origin.  Ascending order.
    pub fn relay_targets(&self, source_session: i32) -> (r: Vec<usize>)
        requires
            self.wf(),
        ensures
            forall|k: int|
                0 <= k < r@.len() ==> self.occupied(#[trigger] r@[k] as int) && self.slot_at(
                    r@[k] as int,
                ).is_active() && self.slot_at(r@[k] as int).subscriber_session_id != source_session,
            forall|i: int|
                #[trigger] self.occupied(i) && self.slot_at(i).is_active() && self.slot_at(
                    i,
                ).subscriber_session_id != source_session ==> r@.contains(i as usize),
            forall|k1: int, k2: int| 0 <= k1 < k2 < r@.len() ==> r@[k1] < r@[k2],
    {
        broadcast use vstd::seq_lib::lemma_seq_contains_after_push;

        let mut out: Vec<usize> = Vec::new();
        let n = self.slots.len();
        let mut i: usize = 0;
        while i < n
            invariant
                self.wf(),
                i <= n,
                n == self.slots@.len(),
                forall|k: int|
                    0 <= k < out@.len() ==> self.occupied(#[trigger] out@[k] as int)
                        && self.slot_at(out@[k] as int).is_active() && self.slot_at(
                        out@[k] as int,
                    ).subscriber_session_id != source_session && out@[k] < i,
                forall|j: int|
                    0 <= j < i && #[trigger] self.occupied(j) && self.slot_at(j).is_active()
                        && self.slot_at(j).subscriber_session_id != source_session
                        ==> out@.contains(j as usize),
                forall|k1: int, k2: int| 0 <= k1 < k2 < out@.len() ==> out@[k1] < out@[k2],
            decreases n - i,
        {
            match &self.slots[i] {
                Some(slot) => {
                    proof {
                        assert(self.occupied(i as int));
                    }
                    if slot.subscriber_session_id != -1 && slot.subscriber_session_id
                        != source_session {
                        let ghost old_out = out@;
                        out.push(i);
                        proof {
                            assert forall|j: int|
                                0 <= j < i + 1 && #[trigger] self.occupied(j) && self.slot_at(
                                    j,
                                ).is_active() && self.slot_at(j).subscriber_session_id
                                != source_session implies out@.contains(j as usize) by {
                                vstd::seq_lib::lemma_seq_contains_after_push(
                                    old_out,
                                    i,
                                    j as usize,
                                );
                            }
                        }
                    }
                },
                None => {},
            }
            i = i + 1;
        }
        out
    }

    /// Records a successful transfer on the slot at `index`, refreshing its
    /// lease to a session window from now; an empty index is left alone.
    pub fn note_traffic(&mut self, index: usize, now: u64)
        requires
            old(self).wf(),
            index < old(self).slots@.len(),
            now + Timeout::SESSION_SECONDS <= u64::MAX,
        ensures
            final(self).wf(),
            final(self).base_port == old(self).base_port,
            final(self).base_control == old(self).base_control,
            old(self).slots@[index as int] is Some ==> final(self).slots@ =~= old(
                self,
            ).slots@.update(
                index as int,
                Some(
                    (ClientSlot {
                        deadline: (now + Timeout::SESSION_SECONDS) as u64,
                        ..old(self).slots@[index as int]->Some_0
                    }),
                ),
            ),
            old(self).slots@[index as int] is None ==> final(self).slots@ == old(self).slots@,
    {
        let ghost prev = *self;
        let entry: Option<ClientSlot> = self.slots[index];
        match entry {
            Some(mut slot) => {
                proof {
                    assert(prev.occupied(index as int));
                }
                slot.publish(now);
                self.slots.set(index, Some(slot));
                proof {
                    lemma_wf_preserved(prev, *self);
                }
            },
            None => {},
        }
    }

    /// Clears an index, closing whatever slot it held; reclaiming an
    /// already-empty index is a no-op.  The shell closes the slot's
    /// channels when the entry clears.
    pub fn reclaim(&mut self, index: usize)
        requires
            old(self).wf(),
            index < old(self).slots@.len(),
        ensures
            final(self).wf(),
            final(self).base_port == old(self).base_port,
            final(self).base_control == old(self).base_control,
            final(self).slots@ =~= old(self).slots@.update(index as int, None),
    {
        self.slots.set(index, None);
        proof {
            let new = *self;
            let prev = *old(self);
            assert forall|i: int|
                #[trigger] new.occupied(i) implies !new.slot_at(i).closed && new.slot_at(i).port
                == new.port_of(i) && new.slot_at(i).control == new.control_of(i) by {
                assert(prev.occupied(i));
            }
            assert forall|i: int, j: int|
                #![trigger new.occupied(i), new.occupied(j)]
                new.occupied(i) && new.occupied(j) && i != j implies new.slot_at(
                i,
            ).publisher_session_id != new.slot_at(j).publisher_session_id by {
                assert(prev.occupied(i) && prev.occupied(j));
            }
        }
    }
}

/// The server: transport tuning, the configuration it was started with, and
/// the slot pool keyed by the configured base ports.
pub struct Server {
    pub settings: Settings,
    pub args: Arguments,
    pub pool: SlotPool,
}

impl Server {
    /// A server with an empty pool of `max_clients` slots, assigning ports
    /// upward from the configured base port pair.
    pub fn instance(args: &Arguments) -> (res: Self)
        requires
            args.mtu <= i32::MAX,
            args.port + args.max_clients <= usize::MAX,
            args.control + args.max_clients <= usize::MAX,
        ensures
            res.args == *args,
            res.settings.message_length == args.mtu as i32,
            res.pool.wf(),
            res.pool.base_port == args.port,
            res.pool.base_control == args.control,
            res.pool.slots@.len() == args.max_clients,
            forall|i: int| 0 <= i < args.max_clients ==> res.pool.slots@[i] is None,
    {
        Server {
            settings: Settings::new(args),
            pool: SlotPool::new(args.max_clients, args.port, args.control),
            args: args.clone(),
        }
    }
}

/// At most one slot of a well-formed pool is publishing on any given
/// session: two indices that both report `is_publishing_on_session` for the
/// same session coincide.
pub proof fn lemma_unique_publisher(pool: SlotPool, i: int, j: int, session_id: i32)
    requires
        pool.wf(),
        pool.occupied(i),
        pool.occupied(j),
        pool.slot_at(i).publisher_session_id == session_id,
        pool.slot_at(j).publisher_session_id == session_id,
    ensures
        i == j,
{
}

} // verus!
