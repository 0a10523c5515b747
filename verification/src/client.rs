//! The client side: the handshake retry/verify state machine that runs
//! before the client enters data-plane forwarding.
use vstd::prelude::*;

use crate::codec::{decode_reply, decode_reply_spec};
use crate::messages::{
    carried_verification, compute_verification, verification_of, Failure, HandshakeRequest,
    HandshakeResponse,
};
use crate::{Arguments, Settings, Timeout};

verus! {

/// The client: transport tuning and the configuration it was started with.
pub struct Client {
    pub settings: Settings,
    pub args: Arguments,
}

impl Client {
    /// A client for the given configuration.
    pub fn instance(args: &Arguments) -> (res: Self)
        requires
            args.mtu <= i32::MAX,
        ensures
            res.args == *args,
            res.settings.message_length == args.mtu as i32,
    {
        Client { settings: Settings::new(args), args: args.clone() }
    }
}

/// The handshake state machine the client drives by cooperative polling:
/// re-send the request every retry window, feed in every inbound fragment,
/// and stop at the first reply whose verification matches the expected
/// value.  Replies addressed to other concurrent handshakes sharing the
/// channel carry a different verification and are ignored, not errors.
pub struct ClientHandshake {
    pub request: HandshakeRequest,
    pub session_id: i32,
    pub expected: i32,
    pub next_send: u64,
    pub outcome: Option<Result<HandshakeResponse, Failure>>,
}

impl ClientHandshake {
    /// The expected verification is pinned to this handshake's session and
    /// nonce, and any accepted reply carries exactly that value.
    pub open spec fn wf(self) -> bool {
        &&& self.expected == verification_of(self.session_id, self.request.key)
        &&& match self.outcome {
            Some(m) => carried_verification(m) == self.expected,
            None => true,
        }
    }

    /// Starts a handshake: the expected verification is computed once from
    /// the publication's session id and the request's nonce, and the first
    /// send is due at once.
    pub fn new(request: HandshakeRequest, session_id: i32, now: u64) -> (hs: Self)
        ensures
            hs.wf(),
            hs.request == request,
            hs.session_id == session_id,
            hs.expected == verification_of(session_id, request.key),
            hs.next_send == now,
            hs.outcome is None,
    {
        ClientHandshake {
            request,
            session_id,
            expected: compute_verification(session_id, request.key),
            next_send: now,
            outcome: None,
        }
    }

    /// Whether the request should be (re)sent this tick: due exactly when
    /// the retry deadline has passed and no reply has been accepted yet.
    /// Sending schedules the next retry one window ahead.
    pub fn poll_send(&mut self, now: u64) -> (send: bool)
        requires
            old(self).wf(),
            now + Timeout::HANDSHAKE_RETRY_SECONDS <= u64::MAX,
        ensures
            final(self).wf(),
            send == (old(self).outcome is None && old(self).next_send <= now),
            send ==> *final(self) == (ClientHandshake {
                next_send: (now + Timeout::HANDSHAKE_RETRY_SECONDS) as u64,
                ..*old(self)
            }),
            !send ==> *final(self) == *old(self),
    {
        if self.outcome.is_none() && self.next_send <= now {
            self.next_send = now + Timeout::HANDSHAKE_RETRY_SECONDS;
            true
        } else {
            false
        }
    }

    /// Feeds one inbound fragment to the state machine.  A fragment that
    /// does not decode is dropped silently.  A decoded reply — accepting or
    /// refusing — is taken as terminal exactly when its carried verification
    /// equals the expected value; a well-formed reply addressed to another
    /// concurrent handshake is never accepted, even if it arrives first.
    pub fn on_fragment(&mut self, bytes: &[u8]) -> (accepted: bool)
        requires
            old(self).wf(),
        ensures
            final(self).wf(),
            accepted == (old(self).outcome is None && decode_reply_spec(bytes@) is Some
                && carried_verification(decode_reply_spec(bytes@)->Some_0) == old(self).expected),
            accepted ==> *final(self) == (ClientHandshake {
                outcome: Some(decode_reply_spec(bytes@)->Some_0),
                ..*old(self)
            }),
            !accepted ==> *final(self) == *old(self),
    {
        if self.outcome.is_some() {
            return false;
        }
        match decode_reply(bytes) {
            Ok(msg) => {
                let carried: i32 = match &msg {
                    Ok(response) => response.verification,
                    Err(failure) => match failure {
                        Failure::HandshakeFailedServerFull(details) => details.session_id,
                        Failure::HandshakeFailedTooManyConnections(details) => details.session_id,
                    },
                };
                if carried == self.expected {
                    self.outcome = Some(msg);
                    true
                } else {
                    false
                }
            },
            Err(_) => false,
        }
    }

    /// The accepted reply, if the handshake has terminated.
    pub fn result(&self) -> (r: Option<Result<HandshakeResponse, Failure>>)
        ensures
            r == self.outcome,
    {
        self.outcome
    }

    /// Whether a verified reply has been accepted, ending the loop.
    pub fn is_done(&self) -> (r: bool)
        ensures
            r == (self.outcome is Some),
    {
        self.outcome.is_some()
    }
}

} // verus!
