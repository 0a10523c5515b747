//! Binary codec for the handshake wire messages.
//!
//! Layout: little-endian fixed-width integers; an enum is a 32-bit variant
//! tag followed by its payload; `usize` fields travel as 64 bits.  A request
//! is the 4-byte nonce.  A reply is `Result<HandshakeResponse, Failure>`:
//! tag 0 then port, control and verification for an accept (24 bytes in
//! all), tag 1 then the failure's own tag and its verification value for a
//! refusal (12 bytes in all).  Decoding rejects anything else, and the
//! caller drops the fragment rather than answering it.
use vstd::bytes::*;
use vstd::prelude::*;
use vstd::slice::slice_subrange;

use crate::messages::{
    carried_verification, verification_of, Failure, FailureDetails, HandshakeRequest,
    HandshakeResponse,
};

verus! {

/// A malformed or truncated handshake payload; the fragment carrying it is
/// ignored.
#[derive(Clone, Copy, Debug, PartialEq, Eq, Structural)]
pub struct CodecError;

/// The two's-complement image of an `i32` as the unsigned 32-bit value its
/// wire bytes spell.
pub open spec fn u32_of_i32(x: i32) -> u32 {
    if x >= 0 {
        x as u32
    } else {
        (x + 0x1_0000_0000) as u32
    }
}

/// Reads an `i32` back from its unsigned two's-complement image.
pub open spec fn i32_of_u32(u: u32) -> i32 {
    if u <= i32::MAX as u32 {
        u as i32
    } else {
        (u - 0x1_0000_0000) as i32
    }
}

/// Round trip of the two's-complement image: every `i32` survives encoding
/// into its unsigned image and back.
pub proof fn lemma_i32_image_round_trip(x: i32)
    ensures
        i32_of_u32(u32_of_i32(x)) == x,
{
}

fn u32_of_i32_exec(x: i32) -> (r: u32)
    ensures
        r == u32_of_i32(x),
{
    if x >= 0 {
        x as u32
    } else {
        ((x as i64) + 0x1_0000_0000i64) as u32
    }
}

fn i32_of_u32_exec(u: u32) -> (r: i32)
    ensures
        r == i32_of_u32(u),
{
    if u <= i32::MAX as u32 {
        u as i32
    } else {
        ((u as i64) - 0x1_0000_0000i64) as i32
    }
}

/// The bytes of an encoded handshake request: the nonce alone.
pub open spec fn encode_request_spec(req: HandshakeRequest) -> Seq<u8> {
    spec_u32_to_le_bytes(u32_of_i32(req.key))
}

/// What a byte sequence decodes to as a handshake request, if anything.
pub open spec fn decode_request_spec(b: Seq<u8>) -> Option<HandshakeRequest> {
    if b.len() == 4 {
        Some(HandshakeRequest { key: i32_of_u32(spec_u32_from_le_bytes(b)) })
    } else {
        None
    }
}

/// The wire tag of each failure variant.
pub open spec fn failure_tag(f: Failure) -> u32 {
    match f {
        Failure::HandshakeFailedServerFull(_) => 0,
        Failure::HandshakeFailedTooManyConnections(_) => 1,
    }
}

/// The details carried by either failure variant.
pub open spec fn failure_details(f: Failure) -> FailureDetails {
    match f {
        Failure::HandshakeFailedServerFull(details) => details,
        Failure::HandshakeFailedTooManyConnections(details) => details,
    }
}

/// The bytes of an encoded handshake reply.
pub open spec fn encode_reply_spec(m: Result<HandshakeResponse, Failure>) -> Seq<u8> {
    match m {
        Ok(r) => spec_u32_to_le_bytes(0u32) + spec_u64_to_le_bytes(r.port as u64)
            + spec_u64_to_le_bytes(r.control as u64) + spec_u32_to_le_bytes(
            u32_of_i32(r.verification),
        ),
        Err(f) => spec_u32_to_le_bytes(1u32) + spec_u32_to_le_bytes(failure_tag(f))
            + spec_u32_to_le_bytes(u32_of_i32(failure_details(f).session_id)),
    }
}

/// What a byte sequence decodes to as a handshake reply, if anything: the
/// exact inverse of `encode_reply_spec` on well-formed input, `None` on
/// anything malformed or truncated.
pub open spec fn decode_reply_spec(b: Seq<u8>) -> Option<Result<HandshakeResponse, Failure>> {
    if b.len() < 4 {
        None
    } else {
        let tag = spec_u32_from_le_bytes(b.subrange(0, 4));
        if tag == 0 && b.len() == 24 {
            let port64 = spec_u64_from_le_bytes(b.subrange(4, 12));
            let control64 = spec_u64_from_le_bytes(b.subrange(12, 20));
            let verification = i32_of_u32(spec_u32_from_le_bytes(b.subrange(20, 24)));
            if port64 <= usize::MAX && control64 <= usize::MAX {
                Some(
                    Ok(
                        HandshakeResponse {
                            port: port64 as usize,
                            control: control64 as usize,
                            verification,
                        },
                    ),
                )
            } else {
                None
            }
        } else if tag == 1 && b.len() == 12 {
            let ftag = spec_u32_from_le_bytes(b.subrange(4, 8));
            let details = FailureDetails {
                session_id: i32_of_u32(spec_u32_from_le_bytes(b.subrange(8, 12))),
            };
            if ftag == 0 {
                Some(Err(Failure::HandshakeFailedServerFull(details)))
            } else if ftag == 1 {
                Some(Err(Failure::HandshakeFailedTooManyConnections(details)))
            } else {
                None
            }
        } else {
            None
        }
    }
}

/// Serializes a handshake request.
pub fn encode_request(req: &HandshakeRequest) -> (out: Vec<u8>)
    ensures
        out@ == encode_request_spec(*req),
{
    u32_to_le_bytes(u32_of_i32_exec(req.key))
}

/// Parses a handshake request; fails exactly on input that is not a 4-byte
/// nonce.
pub fn decode_request(b: &[u8]) -> (r: Result<HandshakeRequest, CodecError>)
    ensures
        r matches Ok(req) ==> decode_request_spec(b@) == Some(req),
        r is Err ==> decode_request_spec(b@) is None,
{
    if b.len() == 4 {
        Ok(HandshakeRequest { key: i32_of_u32_exec(u32_from_le_bytes(b)) })
    } else {
        Err(CodecError)
    }
}

/// Serializes a handshake reply.
pub fn encode_reply(m: &Result<HandshakeResponse, Failure>) -> (out: Vec<u8>)
    ensures
        out@ == encode_reply_spec(*m),
{
    let mut out: Vec<u8> = Vec::new();
    match m {
        Ok(response) => {
            let mut piece = u32_to_le_bytes(0u32);
            out.append(&mut piece);
            let mut piece = u64_to_le_bytes(response.port as u64);
            out.append(&mut piece);
            let mut piece = u64_to_le_bytes(response.control as u64);
            out.append(&mut piece);
            let mut piece = u32_to_le_bytes(u32_of_i32_exec(response.verification));
            out.append(&mut piece);
            assert(out@ =~= encode_reply_spec(*m));
        },
        Err(failure) => {
            let mut piece = u32_to_le_bytes(1u32);
            out.append(&mut piece);
            let ftag: u32 = match failure {
                Failure::HandshakeFailedServerFull(_) => 0,
                Failure::HandshakeFailedTooManyConnections(_) => 1,
            };
            let mut piece = u32_to_le_bytes(ftag);
            out.append(&mut piece);
            let details = match failure {
                Failure::HandshakeFailedServerFull(details) => details,
                Failure::HandshakeFailedTooManyConnections(details) => details,
            };
            let mut piece = u32_to_le_bytes(u32_of_i32_exec(details.session_id));
            out.append(&mut piece);
            assert(out@ =~= encode_reply_spec(*m));
        },
    }
    out
}

/// Parses a handshake reply; fails exactly on input that no reply encodes
/// to.
pub fn decode_reply(b: &[u8]) -> (r: Result<Result<HandshakeResponse, Failure>, CodecError>)
    ensures
        r matches Ok(m) ==> decode_reply_spec(b@) == Some(m),
        r is Err ==> decode_reply_spec(b@) is None,
{
    if b.len() < 4 {
        return Err(CodecError);
    }
    let tag = u32_from_le_bytes(slice_subrange(b, 0, 4));
    if tag == 0 && b.len() == 24 {
        let port64 = u64_from_le_bytes(slice_subrange(b, 4, 12));
        let control64 = u64_from_le_bytes(slice_subrange(b, 12, 20));
        let verification = i32_of_u32_exec(u32_from_le_bytes(slice_subrange(b, 20, 24)));
        if port64 <= usize::MAX as u64 && control64 <= usize::MAX as u64 {
            Ok(
                Ok(
                    HandshakeResponse {
                        port: port64 as usize,
                        control: control64 as usize,
                        verification,
                    },
                ),
            )
        } else {
            Err(CodecError)
        }
    } else if tag == 1 && b.len() == 12 {
        let ftag = u32_from_le_bytes(slice_subrange(b, 4, 8));
        let details = FailureDetails {
            session_id: i32_of_u32_exec(u32_from_le_bytes(slice_subrange(b, 8, 12))),
        };
        if ftag == 0 {
            Ok(Err(Failure::HandshakeFailedServerFull(details)))
        } else if ftag == 1 {
            Ok(Err(Failure::HandshakeFailedTooManyConnections(details)))
        } else {
            Err(CodecError)
        }
    } else {
        Err(CodecError)
    }
}

/// Round trip of the request codec: every request decodes back from its own
/// encoding.
pub proof fn lemma_request_round_trip(req: HandshakeRequest)
    ensures
        decode_request_spec(encode_request_spec(req)) == Some(req),
{
    lemma_auto_spec_u32_to_from_le_bytes();
    lemma_i32_image_round_trip(req.key);
}

/// Round trip of the reply codec: every reply, accepting or refusing,
/// decodes back from its own encoding.
pub proof fn lemma_reply_round_trip(m: Result<HandshakeResponse, Failure>)
    ensures
        decode_reply_spec(encode_reply_spec(m)) == Some(m),
{
    lemma_auto_spec_u32_to_from_le_bytes();
    lemma_auto_spec_u64_to_from_le_bytes();
    let e = encode_reply_spec(m);
    match m {
        Ok(r) => {
            assert(e.subrange(0, 4) =~= spec_u32_to_le_bytes(0u32));
            assert(e.subrange(4, 12) =~= spec_u64_to_le_bytes(r.port as u64));
            assert(e.subrange(12, 20) =~= spec_u64_to_le_bytes(r.control as u64));
            assert(e.subrange(20, 24) =~= spec_u32_to_le_bytes(u32_of_i32(r.verification)));
            lemma_i32_image_round_trip(r.verification);
        },
        Err(f) => {
            assert(e.subrange(0, 4) =~= spec_u32_to_le_bytes(1u32));
            assert(e.subrange(4, 8) =~= spec_u32_to_le_bytes(failure_tag(f)));
            assert(e.subrange(8, 12) =~= spec_u32_to_le_bytes(u32_of_i32(failure_details(f).session_id)));
            lemma_i32_image_round_trip(failure_details(f).session_id);
        },
    }
}

/// The codec preserves the handshake decision: a reply carried through
/// encode and decode is accepted for a given session and nonce exactly when
/// the reply itself would be, since the verification value both sides
/// compute from `(session_id, key)` survives the round trip.
pub proof fn lemma_decision_preserved(
    m: Result<HandshakeResponse, Failure>,
    session_id: i32,
    key: i32,
)
    ensures
        decode_reply_spec(encode_reply_spec(m)) == Some(m),
        (carried_verification(decode_reply_spec(encode_reply_spec(m))->Some_0) == verification_of(
            session_id,
            key,
        )) <==> (carried_verification(m) == verification_of(session_id, key)),
{
    lemma_reply_round_trip(m);
}

} // verus!
