//! Lifecycle state of the client.
use vstd::prelude::*;

verus! {

/// Lifecycle state of the EchoMesh client.
#[derive(Debug, Clone, Copy, PartialEq, Eq)]
pub enum ClientState {
    Disconnected,
    Connecting,
    Connected,
    Authenticated,
    Closing,
    Closed,
}

} // verus!
