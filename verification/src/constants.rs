//! Protocol constants shared by both peers.

use vstd::prelude::*;

verus! {

/// Ceiling on the encoded size of one frame (type byte and payload): 16 MiB.
pub const MAX_FRAME_SIZE: u32 = 16_777_216;

/// Oldest protocol version this implementation speaks.
pub const MIN_PROTOCOL_VERSION: u8 = 1;

/// Newest protocol version this implementation speaks.
pub const MAX_PROTOCOL_VERSION: u8 = 1;

/// Port the tunnel server listens on unless told otherwise.
pub const DEFAULT_TUNNEL_PORT: u16 = 7835;

/// Port the HTTP ingress listens on unless told otherwise.
pub const DEFAULT_HTTP_PORT: u16 = 8080;

} // verus!
