//! Core of a gRPC runtime: server-side dispatch of HTTP/2 bodies into typed
//! gRPC message streams, and the client-side channel with load balancing.
//!
//! The wire-level pieces (length-prefixed framing, compression negotiation,
//! metadata handling, status codes) are verified here; the HTTP/2 transport
//! itself is an external collaborator.

pub mod status;
pub mod base64;
pub mod percent;
pub mod compression;
pub mod metadata;
pub mod framing;
pub mod server;
pub mod balancer;
pub mod channel;
pub mod endpoint;

use vstd::prelude::*;

verus! {

/// Default maximum size, in bytes, of a decoded or encoded message: 4 MiB.
pub const DEFAULT_MAX_MESSAGE_SIZE: usize = 4194304;

/// Default capacity of the channel's bounded inbound queue.
pub const DEFAULT_BUFFER_SIZE: usize = 1024;

} // verus!
