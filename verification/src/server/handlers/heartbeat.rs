//! Keepalive pings.
use vstd::prelude::*;

use crate::error::RoutingError;
use crate::protocol::envelope::{message_type_code, MessageEnvelope};
use crate::protocol::messages::client_to_server::{client_message_type, ClientToServerMessage};
use crate::protocol::messages::server_to_client::ServerToClientMessage;
use crate::server::sessions::session::Session;

verus! {

/// Handler for client heartbeat (keepalive ping) requests.
pub struct HeartbeatHandler;

/// The answer of the heartbeat handler: a heartbeat is answered with its
/// sequence number; any other message is refused as unhandled.
pub open spec fn heartbeat_outcome(message: ClientToServerMessage) -> Result<Option<ServerToClientMessage>, RoutingError> {
    match message {
        ClientToServerMessage::Heartbeat { sequence } => Ok(Some(ServerToClientMessage::HeartbeatResponse { sequence })),
        _ => Err(RoutingError::UnhandledMessageType(message_type_code(client_message_type(message)))),
    }
}

impl HeartbeatHandler {
    /// A heartbeat is answered with its sequence number; any other message is
    /// refused as unhandled.
    pub fn handle(&self, envelope: &MessageEnvelope, message: &ClientToServerMessage, session: &Session) -> (r: Result<
        Option<ServerToClientMessage>,
        RoutingError,
    >)
        ensures
            r == heartbeat_outcome(*message),
    {
        match message {
            ClientToServerMessage::Heartbeat { sequence } => Ok(
                Some(ServerToClientMessage::HeartbeatResponse { sequence: *sequence }),
            ),
            _ => Err(RoutingError::UnhandledMessageType(message.message_type().to_u8())),
        }
    }
}

} // verus!
