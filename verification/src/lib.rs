//! Session/handshake protocol and client-slot lifecycle manager for a UDP
//! tunnel that relays datagrams through a reliable pub/sub transport.
//!
//! The verified core covers the handshake wire codec, the server's slot pool
//! and its allocation/reclamation rules, the per-slot lifecycle state machine
//! (`Pending` -> `Active` -> `Closed`), the connection event queue, and the
//! client-side handshake retry/verify state machine.  Socket I/O, transport
//! channels and process bootstrapping are external collaborators driven by an
//! unverified shell around this library.
use vstd::prelude::*;

pub mod client;
pub mod client_slot;
pub mod codec;
pub mod events;
pub mod messages;
pub mod server;

verus! {

/// Timeout windows, in seconds, governing the handshake retry cadence and the
/// pending/active slot leases.
pub struct Timeout {}

impl Timeout {
    /// How often the client re-sends its handshake request.
    pub const HANDSHAKE_RETRY_SECONDS: u64 = 30;

    /// How long a freshly allocated slot may stay `Pending` without a
    /// matching connection event before it is reclaimed.
    pub const CONNECTION_SECONDS: u64 = 90;

    /// How long an `Active` slot may go without traffic before it is
    /// reclaimed; every transfer refreshes this lease.
    pub const SESSION_SECONDS: u64 = 600;
}

/// Whether this node runs the server side (allocating slots) or the client
/// side (requesting one) of the tunnel.
#[derive(Clone, Copy)]
pub enum Mode {
    Client,
    Server,
}

/// Configuration shared by both sides: base ports, channel endpoint
/// parameters, and pool capacity.
#[derive(Debug)]
pub struct Arguments {
    pub port: usize,
    pub control: usize,
    pub server: String,
    pub public: String,
    pub interface: String,
    pub sforward: String,
    pub sbackward: String,
    pub cforward: String,
    pub cbackward: String,
    pub listen: bool,
    pub endpoint: String,
    pub driverless: bool,
    pub mtu: usize,
    pub max_clients: usize,
    pub dir_prefix: String,
}

impl Clone for Arguments {
    fn clone(&self) -> (res: Self)
        ensures
            res == *self,
    {
        Arguments {
            port: self.port,
            control: self.control,
            server: self.server.clone(),
            public: self.public.clone(),
            interface: self.interface.clone(),
            sforward: self.sforward.clone(),
            sbackward: self.sbackward.clone(),
            cforward: self.cforward.clone(),
            cbackward: self.cbackward.clone(),
            listen: self.listen,
            endpoint: self.endpoint.clone(),
            driverless: self.driverless,
            mtu: self.mtu,
            max_clients: self.max_clients,
            dir_prefix: self.dir_prefix.clone(),
        }
    }
}

/// Default stream id used for every channel, mirroring the transport's
/// example configuration.
pub const DEFAULT_STREAM_ID: i32 = 1001;

/// Transport tuning derived from the arguments; `message_length` bounds each
/// relayed datagram to the configured MTU.
#[derive(Debug)]
pub struct Settings {
    pub dir_prefix: String,
    pub stream_id: i32,
    pub number_of_warmup_messages: i64,
    pub number_of_messages: i64,
    pub message_length: i32,
    pub linger_timeout_ms: u64,
}

impl Settings {
    pub fn new(args: &Arguments) -> (res: Self)
        requires
            args.mtu <= i32::MAX,
        ensures
            res.dir_prefix == args.dir_prefix,
            res.stream_id == DEFAULT_STREAM_ID,
            res.message_length == args.mtu as i32,
    {
        Settings {
            dir_prefix: args.dir_prefix.clone(),
            stream_id: DEFAULT_STREAM_ID,
            number_of_warmup_messages: 0,
            number_of_messages: 10,
            message_length: args.mtu as i32,
            linger_timeout_ms: 100,
        }
    }
}

impl Clone for Settings {
    fn clone(&self) -> (res: Self)
        ensures
            res == *self,
    {
        Settings {
            dir_prefix: self.dir_prefix.clone(),
            stream_id: self.stream_id,
            number_of_warmup_messages: self.number_of_warmup_messages,
            number_of_messages: self.number_of_messages,
            message_length: self.message_length,
            linger_timeout_ms: self.linger_timeout_ms,
        }
    }
}

} // verus!
