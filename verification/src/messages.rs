//! Handshake wire messages and the verification formula both sides share.
use vstd::prelude::*;

verus! {

/// Payload of a handshake failure: the verification value computed for the
/// rejected request, so the requesting client can tell the failure is
/// addressed to it.
#[derive(Clone, Copy, Debug, PartialEq, Eq, Structural)]
pub struct FailureDetails {
    pub session_id: i32,
}

/// Why the server refused a handshake: the pool is full, or the targeted
/// slot is already bound to a different session.
#[derive(Clone, Copy, Debug, PartialEq, Eq, Structural)]
pub enum Failure {
    HandshakeFailedServerFull(FailureDetails),
    HandshakeFailedTooManyConnections(FailureDetails),
}

/// A client's handshake request: a fresh random nonce, used only to
/// correlate the response with this request.
#[derive(Clone, Copy, Debug, PartialEq, Eq, Structural)]
pub struct HandshakeRequest {
    pub key: i32,
}

/// The server's accepting reply: the dedicated data-plane port pair assigned
/// to this client, plus the verification value.
#[derive(Clone, Copy, Debug, PartialEq, Eq, Structural)]
pub struct HandshakeResponse {
    pub port: usize,
    pub control: usize,
    pub verification: i32,
}

/// The verification value for a handshake: the session id multiplied by the
/// request's nonce, with wrapping.  Server and client compute it from the
/// same inputs, so a response can be matched to its request.
pub open spec fn verification_of(session_id: i32, key: i32) -> i32 {
    session_id.wrapping_mul(key)
}

/// Computes the verification value; both sides call this on the same
/// `(session_id, key)` pair and obtain the same result.
pub fn compute_verification(session_id: i32, key: i32) -> (res: i32)
    ensures
        res == verification_of(session_id, key),
{
    session_id.wrapping_mul(key)
}

/// The verification value carried by a decoded handshake reply, whether it
/// accepts or refuses the request.
pub open spec fn carried_verification(msg: Result<HandshakeResponse, Failure>) -> i32 {
    match msg {
        Ok(response) => response.verification,
        Err(failure) => match failure {
            Failure::HandshakeFailedServerFull(details) => details.session_id,
            Failure::HandshakeFailedTooManyConnections(details) => details.session_id,
        },
    }
}

/// Relies on rand's `thread_rng` and `Rng::gen`: draws an arbitrary `i32`.
/// Nothing is promised of the value.
#[verifier::external_body]
fn random_key() -> i32 {
    rand::Rng::gen::<i32>(&mut rand::thread_rng())
}

impl HandshakeRequest {
    /// A request carrying a fresh random nonce; a collision with another
    /// concurrent handshake's nonce is possible but unlikely.
    pub fn new() -> HandshakeRequest {
        HandshakeRequest { key: random_key() }
    }
}

} // verus!
