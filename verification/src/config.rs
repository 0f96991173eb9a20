//! Global constants of the relay: the (empty) compiled-in secret and the
//! identifier of the internal echo service.
use vstd::prelude::*;

verus! {

/// No production authentication secret is compiled into the binary.
/// Operators must provision a token explicitly or use the persisted generated credential.
pub const DEFAULT_SECRET_TOKEN: [u8; 0] = [];

/// Static identifier of the internal echo loopback service (32 bytes of 0xEE).
pub const ECHO_PEER_ID: [u8; 32] = [0xEE, 0xEE, 0xEE, 0xEE, 0xEE, 0xEE, 0xEE, 0xEE, 0xEE, 0xEE, 0xEE, 0xEE, 0xEE, 0xEE, 0xEE, 0xEE, 0xEE, 0xEE, 0xEE, 0xEE, 0xEE, 0xEE, 0xEE, 0xEE, 0xEE, 0xEE, 0xEE, 0xEE, 0xEE, 0xEE, 0xEE, 0xEE];

/// The echo service's peer identifier, the same 32 bytes.
pub const ECHO_SERVICE_PEER_ID: [u8; 32] = ECHO_PEER_ID;

} // verus!
