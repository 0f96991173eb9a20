//! Authentication and connection requests.
use vstd::prelude::*;

use crate::error::RoutingError;
use crate::protocol::envelope::{message_type_code, MessageEnvelope};
use crate::protocol::messages::client_to_server::{client_message_type, ClientToServerMessage};
use crate::protocol::messages::server_to_client::ServerToClientMessage;
use crate::server::sessions::session::Session;

verus! {

/// Handler for client authentication and connection requests.
pub struct AuthHandler;

/// The answer of the authentication handler: an authentication request
/// succeeds for the session; a connect request is accepted with the peer id
/// it asked for; any other message is refused as unhandled.
pub open spec fn auth_outcome(session_id: [u8; 16], message: ClientToServerMessage) -> Result<Option<ServerToClientMessage>, RoutingError> {
    match message {
        ClientToServerMessage::AuthRequest { .. } => Ok(Some(ServerToClientMessage::AuthResponse { success: true, session_id })),
        ClientToServerMessage::ConnectRequest { peer_id } => Ok(Some(ServerToClientMessage::ConnectionAccepted { session_id, assigned_peer_id: peer_id })),
        _ => Err(RoutingError::UnhandledMessageType(message_type_code(client_message_type(message)))),
    }
}

impl AuthHandler {
    /// An authentication request succeeds for the current session; a connect
    /// request is accepted with the peer id it asked for; any other message
    /// is refused as unhandled.
    pub fn handle(&self, envelope: &MessageEnvelope, message: &ClientToServerMessage, session: &Session) -> (r: Result<
        Option<ServerToClientMessage>,
        RoutingError,
    >)
        ensures
            r == auth_outcome(session.session_id, *message),
    {
        match message {
            ClientToServerMessage::AuthRequest { .. } => Ok(
                Some(ServerToClientMessage::AuthResponse { success: true, session_id: session.session_id }),
            ),
            ClientToServerMessage::ConnectRequest { peer_id } => Ok(
                Some(ServerToClientMessage::ConnectionAccepted { session_id: session.session_id, assigned_peer_id: *peer_id }),
            ),
            _ => Err(RoutingError::UnhandledMessageType(message.message_type().to_u8())),
        }
    }
}

} // verus!
