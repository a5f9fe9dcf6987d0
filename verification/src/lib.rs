//! Connection gateway and failover core for a fleet of compute clients.
//!
//! Each client keeps one long-lived connection to the gateway, and each client is backed by a
//! durable workflow. This crate holds the rules of that pairing: how a handshake is read, what a
//! connection may send and when it is admitted, which connection is live for a client, how
//! heartbeats are batched, and which workflows a failover sweep hands back for pickup. Sockets,
//! the store and the message bus are the caller's business; everything here works on plain
//! values and is proved against its contract.

pub mod backoff;
pub mod client_config;
pub mod ctx;
pub mod directory;
pub mod gateway;
pub mod gc;
pub mod handshake;
pub mod json;
pub mod liveness;
pub mod location;
pub mod registry;
pub mod text;
pub mod time;
pub mod util;
pub mod workflow;
