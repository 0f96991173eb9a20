//! Application message sending.
use vstd::prelude::*;

use crate::error::RoutingError;
use crate::protocol::envelope::{message_type_code, MessageEnvelope};
use crate::protocol::messages::client_to_server::{client_message_type, ClientToServerMessage};
use crate::protocol::messages::server_to_client::ServerToClientMessage;
use crate::server::sessions::session::Session;

verus! {

/// Handler for application message sending and relaying.
pub struct MessageHandler;

/// The answer of the message handler: a send request is accepted under the
/// envelope's message id; any other message is refused as unhandled.
pub open spec fn send_outcome(message_id: u64, message: ClientToServerMessage) -> Result<Option<ServerToClientMessage>, RoutingError> {
    match message {
        ClientToServerMessage::SendMessage { .. } => Ok(Some(ServerToClientMessage::SendMessageResponse { message_id, accepted: true })),
        _ => Err(RoutingError::UnhandledMessageType(message_type_code(client_message_type(message)))),
    }
}

impl MessageHandler {
    /// A send request is accepted under the envelope's message id; any other
    /// message is refused as unhandled.
    pub fn handle(&self, envelope: &MessageEnvelope, message: &ClientToServerMessage, session: &Session) -> (r: Result<
        Option<ServerToClientMessage>,
        RoutingError,
    >)
        ensures
            r == send_outcome(envelope.message_id, *message),
    {
        match message {
            ClientToServerMessage::SendMessage { .. } => Ok(
                Some(ServerToClientMessage::SendMessageResponse { message_id: envelope.message_id, accepted: true }),
            ),
            _ => Err(RoutingError::UnhandledMessageType(message.message_type().to_u8())),
        }
    }
}

} // verus!
