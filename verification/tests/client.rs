use rudp_tunnel::client::{Client, ClientHandshake};
use rudp_tunnel::client_slot::ClientSlot;
use rudp_tunnel::codec::encode_reply;
use rudp_tunnel::messages::{
    compute_verification, Failure, FailureDetails, HandshakeRequest, HandshakeResponse,
};
use rudp_tunnel::server::SlotPool;
use rudp_tunnel::{Arguments, Mode, Settings, Timeout, DEFAULT_STREAM_ID};

fn arguments() -> Arguments {
    Arguments {
        port: 40123,
        control: 32104,
        server: String::from("198.51.100.7"),
        public: String::from("0.0.0.0"),
        interface: String::new(),
        sforward: String::from("endpoint=0.0.0.0:40123"),
        sbackward: String::from("endpoint=0.0.0.0:40123"),
        cforward: String::from("endpoint=198.51.100.7:40123"),
        cbackward: String::from("endpoint=0.0.0.0:0"),
        listen: false,
        endpoint: String::from("127.0.0.1:9000"),
        driverless: true,
        mtu: 128,
        max_clients: 10,
        dir_prefix: String::from("/tmp/aeron-test"),
    }
}

#[test]
fn verification_formula_is_wrapping() {
    assert_eq!(compute_verification(7, 3), 21);
    assert_eq!(compute_verification(-7, 3), -21);
    assert_eq!(compute_verification(i32::MAX, 2), -2);
    assert_eq!(compute_verification(i32::MIN, -1), i32::MIN);
    assert_eq!(compute_verification(0, 12345), 0);
}

#[test]
fn verification_matches_both_sides() {
    // The server computes the verification from the same (session, nonce)
    // pair as the client, so the client accepts exactly its own reply.
    let request = HandshakeRequest { key: 3 };
    let session_id = 7;
    let mut pool = SlotPool::new(4, 40123, 32104);
    let reply = pool.on_handshake_request(session_id, request.key, 0);
    let mut handshake = ClientHandshake::new(request, session_id, 0);
    let accepted = handshake.on_fragment(&encode_reply(&reply));
    assert!(accepted);
    assert_eq!(handshake.result(), Some(reply));
}

#[test]
fn mismatched_verification_is_never_accepted() {
    // A well-formed reply addressed to a different concurrent handshake
    // carries another verification and must be ignored, even arriving first.
    let request = HandshakeRequest { key: 3 };
    let mut handshake = ClientHandshake::new(request, 7, 0);
    let stranger: Result<HandshakeResponse, Failure> =
        Ok(HandshakeResponse { port: 40124, control: 32105, verification: 22 });
    assert!(!handshake.on_fragment(&encode_reply(&stranger)));
    assert!(!handshake.is_done());
    let strange_failure: Result<HandshakeResponse, Failure> =
        Err(Failure::HandshakeFailedServerFull(FailureDetails { session_id: -5 }));
    assert!(!handshake.on_fragment(&encode_reply(&strange_failure)));
    assert!(!handshake.is_done());
    assert_eq!(handshake.result(), None);
    // the reply that carries this handshake's verification terminates it
    let own: Result<HandshakeResponse, Failure> =
        Ok(HandshakeResponse { port: 40124, control: 32105, verification: 21 });
    assert!(handshake.on_fragment(&encode_reply(&own)));
    assert!(handshake.is_done());
    assert_eq!(handshake.result(), Some(own));
}

#[test]
fn verified_failure_terminates_with_failure() {
    let request = HandshakeRequest { key: 5 };
    let mut handshake = ClientHandshake::new(request, 3, 0);
    let refusal: Result<HandshakeResponse, Failure> =
        Err(Failure::HandshakeFailedTooManyConnections(FailureDetails { session_id: 15 }));
    assert!(handshake.on_fragment(&encode_reply(&refusal)));
    assert_eq!(handshake.result(), Some(refusal));
    // once terminal, later fragments change nothing
    let late: Result<HandshakeResponse, Failure> =
        Ok(HandshakeResponse { port: 1, control: 2, verification: 15 });
    assert!(!handshake.on_fragment(&encode_reply(&late)));
    assert_eq!(handshake.result(), Some(refusal));
}

#[test]
fn malformed_fragment_is_ignored() {
    let mut handshake = ClientHandshake::new(HandshakeRequest { key: 1 }, 1, 0);
    assert!(!handshake.on_fragment(&[]));
    assert!(!handshake.on_fragment(&[9, 9, 9]));
    assert!(!handshake.on_fragment(&[2, 0, 0, 0, 1, 2, 3, 4, 5, 6, 7, 8]));
    assert!(!handshake.is_done());
}

#[test]
fn retry_cadence_follows_the_window() {
    let mut handshake = ClientHandshake::new(HandshakeRequest { key: 1 }, 1, 100);
    // due at once, then re-scheduled one window ahead
    assert!(handshake.poll_send(100));
    assert!(!handshake.poll_send(100 + Timeout::HANDSHAKE_RETRY_SECONDS - 1));
    assert!(handshake.poll_send(100 + Timeout::HANDSHAKE_RETRY_SECONDS));
    // an accepted reply stops the sending
    let own: Result<HandshakeResponse, Failure> =
        Ok(HandshakeResponse { port: 1, control: 2, verification: 1 });
    assert!(handshake.on_fragment(&encode_reply(&own)));
    assert!(!handshake.poll_send(u64::MAX - Timeout::HANDSHAKE_RETRY_SECONDS));
}

#[test]
fn request_nonce_is_fresh_each_attempt() {
    // nothing is promised of the nonce's value; the request must simply be
    // usable as the multiplier on both sides
    let request = HandshakeRequest::new();
    let expected = compute_verification(9, request.key);
    let mut handshake = ClientHandshake::new(request, 9, 0);
    let own: Result<HandshakeResponse, Failure> =
        Ok(HandshakeResponse { port: 1, control: 2, verification: expected });
    assert!(handshake.on_fragment(&encode_reply(&own)));
}

#[test]
fn client_instance_keeps_configuration() {
    let args = arguments();
    let client = Client::instance(&args);
    assert_eq!(client.args.server, "198.51.100.7");
    assert_eq!(client.args.endpoint, "127.0.0.1:9000");
    assert_eq!(client.settings.message_length, 128);
    assert_eq!(client.settings.stream_id, DEFAULT_STREAM_ID);
    assert_eq!(client.settings.dir_prefix, "/tmp/aeron-test");
    let mode = Mode::Client;
    assert!(matches!(mode, Mode::Client));
}

#[test]
fn settings_follow_arguments() {
    let settings = Settings::new(&arguments());
    assert_eq!(settings.stream_id, 1001);
    assert_eq!(settings.message_length, 128);
}

#[test]
fn client_slot_lifecycle() {
    let mut slot = ClientSlot::new(7, 40124, 32105, 10);
    assert!(slot.is_publishing_on_session(7));
    assert!(!slot.is_publishing_on_session(8));
    assert!(!slot.has_subscribers_on_session(7));
    assert_eq!(slot.deadline, 10 + Timeout::CONNECTION_SECONDS);
    assert!(!slot.is_timeout_elapsed(10 + Timeout::CONNECTION_SECONDS - 1));
    assert!(slot.is_timeout_elapsed(10 + Timeout::CONNECTION_SECONDS));
    slot.activate(7, 20);
    assert!(slot.has_subscribers_on_session(7));
    assert_eq!(slot.deadline, 20 + Timeout::SESSION_SECONDS);
    slot.publish(30);
    assert_eq!(slot.deadline, 30 + Timeout::SESSION_SECONDS);
    slot.receive(40);
    assert_eq!(slot.deadline, 40 + Timeout::SESSION_SECONDS);
    assert!(!slot.is_closed());
    slot.close();
    assert!(slot.is_closed());
}
