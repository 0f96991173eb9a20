//! Handlers of unsolicited server events, implemented by client applications.
use vstd::prelude::*;

use crate::protocol::messages::server_to_client::{DeliveryStatus, PeerStatus};

verus! {

/// Implemented by client applications to receive unsolicited server events;
/// every event is ignored unless the application says otherwise.
pub trait ClientEventHandler: Send + Sync {
    fn on_incoming_message(&self, sender_id: [u8; 32], data: Vec<u8>) {
    }

    fn on_delivery_status(&self, message_id: u64, status: DeliveryStatus) {
    }

    fn on_peer_event(&self, peer_id: [u8; 32], status: PeerStatus) {
    }

    fn on_relay_event(&self, session_id: [u8; 16], status: u8) {
    }
}

/// Default no-op event handler.
pub struct NoopClientEventHandler;

impl ClientEventHandler for NoopClientEventHandler {

}

} // verus!
