use rudp_tunnel::events::EventQueue;
use rudp_tunnel::messages::{Failure, HandshakeResponse};
use rudp_tunnel::server::{Server, SlotPool};
use rudp_tunnel::{Arguments, Timeout};

fn arguments(max_clients: usize) -> Arguments {
    Arguments {
        port: 40123,
        control: 32104,
        server: String::from("0.0.0.0"),
        public: String::from("0.0.0.0"),
        interface: String::new(),
        sforward: String::from("endpoint=0.0.0.0:40123"),
        sbackward: String::from("endpoint=0.0.0.0:40123"),
        cforward: String::from("endpoint=0.0.0.0:40123"),
        cbackward: String::from("endpoint=0.0.0.0:0"),
        listen: true,
        endpoint: String::from("0.0.0.0:0"),
        driverless: true,
        mtu: 128,
        max_clients,
        dir_prefix: String::new(),
    }
}

#[test]
fn server_instance_builds_empty_pool() {
    let server = Server::instance(&arguments(10));
    assert_eq!(server.pool.slots.len(), 10);
    assert!(server.pool.slots.iter().all(|slot| slot.is_none()));
    assert_eq!(server.pool.base_port, 40123);
    assert_eq!(server.pool.base_control, 32104);
    assert_eq!(server.settings.message_length, 128);
    assert_eq!(server.args.max_clients, 10);
}

#[test]
fn capacity_one_two_sessions_then_reuse() {
    // Pool of one slot; two distinct sessions request before either
    // activates: exactly one accept, the other refused for capacity.
    let mut pool = SlotPool::new(1, 40123, 32104);
    let first = pool.on_handshake_request(7, 3, 0);
    assert_eq!(
        first,
        Ok(HandshakeResponse { port: 40124, control: 32105, verification: 21 })
    );
    let second = pool.on_handshake_request(8, 5, 0);
    assert!(matches!(second, Err(Failure::HandshakeFailedServerFull(d)) if d.session_id == 40));
    // the accepted session disconnects; a third request reuses index 0
    pool.handle_disconnections(&vec![7], 0);
    assert!(pool.slots[0].is_none());
    let third = pool.on_handshake_request(9, 2, 0);
    assert_eq!(
        third,
        Ok(HandshakeResponse { port: 40124, control: 32105, verification: 18 })
    );
}

#[test]
fn repeated_handshake_reuses_same_slot() {
    // An identical, already-accepted request from the same session returns
    // the same slot and never allocates a second index.
    let mut pool = SlotPool::new(2, 100, 200);
    let first = pool.on_handshake_request(5, 11, 0);
    assert_eq!(first, Ok(HandshakeResponse { port: 101, control: 201, verification: 55 }));
    let again = pool.on_handshake_request(5, 11, 1);
    assert_eq!(again, first);
    assert!(pool.slots[0].is_some());
    assert!(pool.slots[1].is_none());
}

#[test]
fn stale_index_refused_for_different_session() {
    // A request resolved to an index that another session occupies is
    // refused and the held slot is left untouched.
    let mut pool = SlotPool::new(1, 40123, 32104);
    pool.on_handshake_request(7, 3, 0).unwrap();
    let held = pool.slots[0];
    let refused = pool.handshake(8, 5, 0, 0);
    assert!(
        matches!(refused, Err(Failure::HandshakeFailedTooManyConnections(d)) if d.session_id == 40)
    );
    assert_eq!(pool.slots[0], held);
}

#[test]
fn port_assignment_by_index() {
    // Slot at index 2 of a ten-slot pool based at 40123 is assigned 40126.
    let mut pool = SlotPool::new(10, 40123, 32104);
    pool.allocate(2, 42, 0);
    let slot = pool.slots[2].unwrap();
    assert_eq!(slot.port, 40126);
    assert_eq!(slot.control, 32107);
}

#[test]
fn traffic_refreshes_lease_and_timeout_is_exact() {
    // Traffic at t refreshes the deadline to t + SESSION_SECONDS; with no
    // further traffic the slot closes exactly at that deadline, not before.
    let mut pool = SlotPool::new(10, 40123, 32104);
    pool.allocate(2, 42, 0);
    pool.note_traffic(2, 5);
    let deadline = 5 + Timeout::SESSION_SECONDS;
    assert_eq!(pool.slots[2].unwrap().deadline, deadline);
    pool.reclaim_timed_out(deadline - 1);
    assert!(pool.slots[2].is_some());
    pool.reclaim_timed_out(deadline);
    assert!(pool.slots[2].is_none());
}

#[test]
fn pending_slot_times_out_and_index_is_reusable() {
    // A Pending slot that never sees its connection event is reclaimed once
    // the connection window elapses, and its index is allocatable again.
    let mut pool = SlotPool::new(1, 40123, 32104);
    pool.on_handshake_request(7, 3, 0).unwrap();
    let slot = pool.slots[0].unwrap();
    assert!(!slot.is_closed() && slot.subscriber_session_id == -1);
    assert_eq!(slot.deadline, Timeout::CONNECTION_SECONDS);
    pool.reclaim_timed_out(Timeout::CONNECTION_SECONDS - 1);
    assert!(pool.slots[0].is_some());
    pool.reclaim_timed_out(Timeout::CONNECTION_SECONDS);
    assert!(pool.slots[0].is_none());
    assert_eq!(pool.find_free_slot(), Some(0));
    let reused = pool.on_handshake_request(8, 2, Timeout::CONNECTION_SECONDS);
    assert_eq!(
        reused,
        Ok(HandshakeResponse { port: 40124, control: 32105, verification: 16 })
    );
}

#[test]
fn connection_event_activates_matching_slot() {
    let mut pool = SlotPool::new(2, 40123, 32104);
    pool.on_handshake_request(7, 3, 0).unwrap();
    pool.on_handshake_request(8, 4, 0).unwrap();
    pool.handle_connections(&vec![8], 10);
    let untouched = pool.slots[0].unwrap();
    assert_eq!(untouched.subscriber_session_id, -1);
    assert_eq!(untouched.deadline, Timeout::CONNECTION_SECONDS);
    let activated = pool.slots[1].unwrap();
    assert_eq!(activated.subscriber_session_id, 8);
    assert_eq!(activated.deadline, 10 + Timeout::SESSION_SECONDS);
    // an event matching no slot is dropped
    pool.handle_connections(&vec![99], 11);
    assert_eq!(pool.slots[1].unwrap().deadline, 10 + Timeout::SESSION_SECONDS);
}

#[test]
fn disconnection_reclaims_owning_slot_only() {
    let mut pool = SlotPool::new(2, 40123, 32104);
    pool.on_handshake_request(7, 3, 0).unwrap();
    pool.on_handshake_request(8, 4, 0).unwrap();
    pool.handle_connections(&vec![7, 8], 0);
    pool.handle_disconnections(&vec![8], 1);
    assert!(pool.slots[0].is_some());
    assert!(pool.slots[1].is_none());
}

#[test]
fn at_most_one_slot_publishes_a_session() {
    let mut pool = SlotPool::new(3, 40123, 32104);
    pool.on_handshake_request(7, 3, 0).unwrap();
    pool.on_handshake_request(8, 4, 0).unwrap();
    pool.on_handshake_request(7, 9, 0).unwrap();
    let publishers: Vec<usize> = (0..3)
        .filter(|&i| {
            pool.slots[i].map(|slot| slot.is_publishing_on_session(7)).unwrap_or(false)
        })
        .collect();
    assert_eq!(publishers, vec![0]);
}

#[test]
fn relay_targets_skip_source_and_pending() {
    let mut pool = SlotPool::new(3, 40123, 32104);
    pool.on_handshake_request(7, 3, 0).unwrap();
    pool.on_handshake_request(8, 4, 0).unwrap();
    pool.on_handshake_request(9, 5, 0).unwrap();
    // only sessions 7 and 8 attach their subscriber
    pool.handle_connections(&vec![7, 8], 0);
    assert_eq!(pool.live_slot_indices(), vec![0, 1, 2]);
    // a fragment from session 7 goes to the other active slot only
    assert_eq!(pool.relay_targets(7), vec![1]);
    assert_eq!(pool.relay_targets(8), vec![0]);
    // a fragment from an unknown session goes to every active slot
    assert_eq!(pool.relay_targets(1000), vec![0, 1]);
}

#[test]
fn event_queue_keeps_arrival_order_and_drains() {
    let mut queue = EventQueue::new();
    queue.push(3);
    queue.push(-1);
    queue.push(3);
    let drained = queue.drain();
    assert_eq!(drained, vec![3, -1, 3]);
    assert!(queue.drain().is_empty());
    queue.push(9);
    assert_eq!(queue.drain(), vec![9]);
}
