//! The handler table of the standard relay: which handler answers which
//! kind of client message.
use vstd::prelude::*;

use crate::error::RoutingError;
use crate::protocol::envelope::{MessageEnvelope, MessageType};
use crate::protocol::messages::client_to_server::ClientToServerMessage;
use crate::protocol::messages::server_to_client::ServerToClientMessage;
use crate::server::handlers::auth::{auth_outcome, AuthHandler};
use crate::server::handlers::echo::{echo_answers, EchoHandler};
use crate::server::handlers::heartbeat::{heartbeat_outcome, HeartbeatHandler};
use crate::server::handlers::message::{send_outcome, MessageHandler};
use crate::server::services::EchoService;
use crate::server::sessions::session::Session;

verus! {

/// The handlers that the standard relay registers.
#[derive(Debug, Clone, Copy, PartialEq, Eq)]
pub enum StandardHandler {
    Echo,
    Message,
    Heartbeat,
    Auth,
}

/// The standard relay's table: raw echo requests go to the echo handler,
/// send requests to the message handler, heartbeats to the heartbeat
/// handler, authentication and connect requests to the authentication
/// handler; no other message type has a handler.
pub open spec fn standard_handler_of(t: MessageType) -> Option<StandardHandler> {
    match t {
        MessageType::RawEcho => Some(StandardHandler::Echo),
        MessageType::SendMessage => Some(StandardHandler::Message),
        MessageType::Heartbeat => Some(StandardHandler::Heartbeat),
        MessageType::AuthRequest => Some(StandardHandler::Auth),
        MessageType::ConnectRequest => Some(StandardHandler::Auth),
        _ => None,
    }
}

/// The handler that the standard relay registers for messages of type `t`.
pub fn standard_handler(t: MessageType) -> (r: Option<StandardHandler>)
    ensures
        r == standard_handler_of(t),
{
    match t {
        MessageType::RawEcho => Some(StandardHandler::Echo),
        MessageType::SendMessage => Some(StandardHandler::Message),
        MessageType::Heartbeat => Some(StandardHandler::Heartbeat),
        MessageType::AuthRequest => Some(StandardHandler::Auth),
        MessageType::ConnectRequest => Some(StandardHandler::Auth),
        _ => None,
    }
}

/// Whether `r` is what handler `h` answers to `message` in `envelope` on `session`.
pub open spec fn handler_answers(
    h: StandardHandler,
    envelope: MessageEnvelope,
    message: ClientToServerMessage,
    session: Session,
    r: Result<Option<ServerToClientMessage>, RoutingError>,
) -> bool {
    match h {
        StandardHandler::Echo => echo_answers(message, r),
        StandardHandler::Message => r == send_outcome(envelope.message_id, message),
        StandardHandler::Heartbeat => r == heartbeat_outcome(message),
        StandardHandler::Auth => r == auth_outcome(session.session_id, message),
    }
}

impl StandardHandler {
    /// Runs this handler on a message.
    pub fn handle(&self, envelope: &MessageEnvelope, message: &ClientToServerMessage, session: &Session) -> (r: Result<
        Option<ServerToClientMessage>,
        RoutingError,
    >)
        ensures
            handler_answers(*self, *envelope, *message, *session, r),
    {
        match self {
            StandardHandler::Echo => EchoHandler::new(EchoService::new()).handle(envelope, message, session),
            StandardHandler::Message => MessageHandler.handle(envelope, message, session),
            StandardHandler::Heartbeat => HeartbeatHandler.handle(envelope, message, session),
            StandardHandler::Auth => AuthHandler.handle(envelope, message, session),
        }
    }
}

} // verus!
